use vstd::prelude::*;
use vstd::string::StringExecFns;

use crate::outline::{items_view, ItemView, OutlineItem};

verus! {

/// The placeholder shown for a node without a title.
pub open spec fn untitled_text() -> Seq<char> {
    seq!['<', 'U', 'n', 't', 'i', 't', 'l', 'e', 'd', '>']
}

/// `n` spaces.
pub open spec fn spaces(n: nat) -> Seq<char> {
    Seq::new(n, |i: int| ' ')
}

/// A rendered node's label: its title, or the placeholder.
pub open spec fn title_or_placeholder(t: Option<Seq<char>>) -> Seq<char> {
    match t {
        Option::Some(s) => s,
        Option::None => untitled_text(),
    }
}

/// The indented text rendering of a sequence of nodes at a given depth:
/// four spaces per level of depth, then `- ` and the label and a newline,
/// then the node's children one level deeper, then the later siblings.
pub open spec fn render_spec(items: Seq<ItemView>, depth: nat) -> Seq<char>
    decreases items,
{
    if items.len() == 0 {
        Seq::empty()
    } else {
        spaces(4 * depth) + seq!['-', ' '] + title_or_placeholder(items[0].title) + seq!['\n']
            + render_spec(items[0].children, depth + 1)
            + render_spec(items.subrange(1, items.len() as int), depth)
    }
}

/// Law: a node whose title is absent renders with the `<Untitled>`
/// placeholder as its label.
pub proof fn lemma_untitled_renders_placeholder(items: Seq<ItemView>, depth: nat)
    requires
        items.len() > 0,
        items[0].title is None,
    ensures
        render_spec(items, depth) == spaces(4 * depth) + seq!['-', ' '] + untitled_text()
            + seq!['\n'] + render_spec(items[0].children, depth + 1)
            + render_spec(items.subrange(1, items.len() as int), depth),
{
}

fn render_into(items: &[OutlineItem], prefix: &String, Ghost(depth): Ghost<nat>, out: &mut String)
    requires
        prefix@ == spaces(4 * depth),
    ensures
        final(out)@ == old(out)@ + render_spec(items_view(items@), depth),
    decreases items@,
{
    if items.len() == 0 {
        proof {
            assert(items_view(items@) =~= Seq::<ItemView>::empty());
            assert(out@ + render_spec(items_view(items@), depth) =~= out@);
        }
        return;
    }
    let head = &items[0];
    out.append(prefix.as_str());
    out.append("- ");
    match &head.title {
        Option::Some(t) => out.append(t.as_str()),
        Option::None => out.append("<Untitled>"),
    }
    out.append("\n");
    let mut child_prefix: String = prefix.clone();
    child_prefix.append("    ");
    proof {
        reveal_strlit("- ");
        reveal_strlit("<Untitled>");
        reveal_strlit("\n");
        reveal_strlit("    ");
        assert(child_prefix@ =~= spaces(4 * (depth + 1)));
    }
    render_into(head.children.as_slice(), &child_prefix, Ghost((depth + 1) as nat), out);
    let rest = vstd::slice::slice_subrange(items, 1, items.len());
    render_into(rest, prefix, Ghost(depth), out);
    proof {
        reveal_strlit("- ");
        reveal_strlit("<Untitled>");
        reveal_strlit("\n");
        let iv = items_view(items@);
        assert(rest@ =~= items@.subrange(1, items@.len() as int));
        assert(iv[0].title == items@[0].title.deep_view());
        assert(iv.subrange(1, iv.len() as int) =~= items_view(items@.subrange(1, items@.len() as int)));
        assert("- "@ =~= seq!['-', ' ']);
        assert("\n"@ =~= seq!['\n']);
        assert("<Untitled>"@ =~= untitled_text());
        assert(out@ =~= old(out)@ + render_spec(items_view(items@), depth));
    }
}

/// Render the outline as indented text: one line per node, `- ` and the
/// title (or `<Untitled>` when absent), indented four spaces per nesting
/// level, each line ended by a newline; children before later siblings.
pub fn render_text(items: &Vec<OutlineItem>) -> (r: String)
    ensures
        r@ == render_spec(items_view(items@), 0),
{
    let mut out = String::new();
    let prefix = String::new();
    proof {
        assert(prefix@ =~= spaces(0));
    }
    render_into(items.as_slice(), &prefix, Ghost(0nat), &mut out);
    proof {
        assert(Seq::<char>::empty() + render_spec(items_view(items@), 0) =~= render_spec(
            items_view(items@),
            0,
        ));
    }
    out
}

} // verus!
