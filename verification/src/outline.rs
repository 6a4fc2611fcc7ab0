use vstd::prelude::*;

use crate::store::{dict_get_spec, lookup_spec, DocStore, ObjId, ObjView, PdfObj, PdfValue, StoreView, ValView};
use crate::title::{extract_title, title_spec};
use crate::OutlineError;

verus! {

/// One extracted outline node: an optional decoded title and the node's
/// children in source order.
#[derive(Debug, PartialEq)]
pub struct OutlineItem {
    pub title: Option<String>,
    pub children: Vec<OutlineItem>,
}

/// Mathematical model of an extracted outline node.
pub struct ItemView {
    pub title: Option<Seq<char>>,
    pub children: Seq<ItemView>,
}

/// Mathematical model of a sequence of outline nodes.
pub open spec fn items_view(items: Seq<OutlineItem>) -> Seq<ItemView>
    decreases items,
{
    if items.len() == 0 {
        Seq::empty()
    } else {
        seq![
            ItemView {
                title: items[0].title.deep_view(),
                children: items_view(items[0].children@),
            },
        ] + items_view(items.subrange(1, items.len() as int))
    }
}

/// Mathematical model of one outline node.
pub open spec fn item_view(item: OutlineItem) -> ItemView {
    ItemView { title: item.title.deep_view(), children: items_view(item.children@) }
}

/// The dictionary key of the first-child reference: `First`.
pub open spec fn first_key() -> Seq<u8> {
    seq![0x46u8, 0x69u8, 0x72u8, 0x73u8, 0x74u8]
}

/// The dictionary key of the next-sibling reference: `Next`.
pub open spec fn next_key() -> Seq<u8> {
    seq![0x4Eu8, 0x65u8, 0x78u8, 0x74u8]
}

/// The trailer key of the catalog reference: `Root`.
pub open spec fn root_key() -> Seq<u8> {
    seq![0x52u8, 0x6Fu8, 0x6Fu8, 0x74u8]
}

/// The catalog key of the outline root reference: `Outlines`.
pub open spec fn outlines_key() -> Seq<u8> {
    seq![0x4Fu8, 0x75u8, 0x74u8, 0x6Cu8, 0x69u8, 0x6Eu8, 0x65u8, 0x73u8]
}

/// The `First` key as a byte string.
pub fn first_key_bytes() -> (r: Vec<u8>)
    ensures
        r@ == first_key(),
{
    let mut v: Vec<u8> = Vec::new();
    v.push(0x46);
    v.push(0x69);
    v.push(0x72);
    v.push(0x73);
    v.push(0x74);
    proof {
        assert(v@ =~= first_key());
    }
    v
}

/// The `Next` key as a byte string.
pub fn next_key_bytes() -> (r: Vec<u8>)
    ensures
        r@ == next_key(),
{
    let mut v: Vec<u8> = Vec::new();
    v.push(0x4E);
    v.push(0x65);
    v.push(0x78);
    v.push(0x74);
    proof {
        assert(v@ =~= next_key());
    }
    v
}

/// The `Root` key as a byte string.
pub fn root_key_bytes() -> (r: Vec<u8>)
    ensures
        r@ == root_key(),
{
    let mut v: Vec<u8> = Vec::new();
    v.push(0x52);
    v.push(0x6F);
    v.push(0x6F);
    v.push(0x74);
    proof {
        assert(v@ =~= root_key());
    }
    v
}

/// The `Outlines` key as a byte string.
pub fn outlines_key_bytes() -> (r: Vec<u8>)
    ensures
        r@ == outlines_key(),
{
    let mut v: Vec<u8> = Vec::new();
    v.push(0x4F);
    v.push(0x75);
    v.push(0x74);
    v.push(0x6C);
    v.push(0x69);
    v.push(0x6E);
    v.push(0x65);
    v.push(0x73);
    proof {
        assert(v@ =~= outlines_key());
    }
    v
}

/// The outline items produced by walking a sibling chain from `start`:
/// each node must resolve to a dictionary, its title is decoded, its
/// children are the chain of its `First` reference, and the walk continues
/// with its `Next` reference. `fuel` bounds the number of links followed;
/// the extraction passes fuel enough that it runs out only on a graph with
/// a cycle.
pub open spec fn chain_spec(s: StoreView, start: ObjId, fuel: nat) -> Result<Seq<ItemView>, OutlineError>
    decreases fuel,
{
    match lookup_spec(s.objects, start) {
        Option::Some(ObjView::Dict(d)) => match title_spec(d) {
            Result::Err(e) => Result::Err(e),
            Result::Ok(title) => {
                let children_r = match dict_get_spec(d, first_key()) {
                    Option::Some(ValView::Ref(id)) => if fuel == 0 {
                        Result::Err(OutlineError::CyclicOutline)
                    } else {
                        chain_spec(s, id, (fuel - 1) as nat)
                    },
                    _ => Result::Ok(Seq::<ItemView>::empty()),
                };
                match children_r {
                    Result::Err(e) => Result::Err(e),
                    Result::Ok(children) => {
                        let rest_r = match dict_get_spec(d, next_key()) {
                            Option::Some(ValView::Ref(id)) => if fuel == 0 {
                                Result::Err(OutlineError::CyclicOutline)
                            } else {
                                chain_spec(s, id, (fuel - 1) as nat)
                            },
                            _ => Result::Ok(Seq::<ItemView>::empty()),
                        };
                        match rest_r {
                            Result::Err(e) => Result::Err(e),
                            Result::Ok(rest) => Result::Ok(
                                seq![ItemView { title, children }] + rest,
                            ),
                        }
                    },
                }
            },
        },
        _ => Result::Err(OutlineError::InvalidOutlines),
    }
}

/// Entry resolution: from the trailer's `Root` reference to the catalog, to
/// its `Outlines` reference, to the outline root dictionary, to its `First`
/// reference — the id of the first top-level outline node. Each step that
/// fails names a distinct error.
pub open spec fn entry_spec(s: StoreView) -> Result<ObjId, OutlineError> {
    match dict_get_spec(s.trailer, root_key()) {
        Option::Some(ValView::Ref(catalog_id)) => match lookup_spec(s.objects, catalog_id) {
            Option::Some(ObjView::Dict(catalog)) => match dict_get_spec(catalog, outlines_key()) {
                Option::Some(ValView::Ref(outlines_id)) => match lookup_spec(s.objects, outlines_id) {
                    Option::Some(ObjView::Dict(root_dict)) => match dict_get_spec(root_dict, first_key()) {
                        Option::Some(ValView::Ref(first_id)) => Result::Ok(first_id),
                        _ => Result::Err(OutlineError::InvalidOutlines),
                    },
                    Option::Some(_) => Result::Err(OutlineError::InvalidOutlineRoot),
                    Option::None => Result::Err(OutlineError::InvalidOutlines),
                },
                _ => Result::Err(OutlineError::InvalidOutlines),
            },
            _ => Result::Err(OutlineError::InvalidCatalog),
        },
        _ => Result::Err(OutlineError::MissingRoot),
    }
}

/// The whole extraction: entry resolution, then the top-level chain with
/// fuel enough for any acyclic graph over the store's objects.
pub open spec fn outline_spec(s: StoreView) -> Result<Seq<ItemView>, OutlineError> {
    match entry_spec(s) {
        Result::Ok(first_id) => chain_spec(s, first_id, s.objects.len()),
        Result::Err(e) => Result::Err(e),
    }
}

/// Model of consing one item onto a sequence of items.
pub proof fn lemma_items_view_cons(item: OutlineItem, rest: Seq<OutlineItem>)
    ensures
        items_view(seq![item] + rest) == seq![item_view(item)] + items_view(rest),
{
    let all = seq![item] + rest;
    assert(all[0] == item);
    assert(all.subrange(1, all.len() as int) =~= rest);
}

/// Walk one sibling chain, depth-first into children.
fn collect_chain(store: &DocStore, start: ObjId, fuel: usize) -> (r: Result<Vec<OutlineItem>, OutlineError>)
    ensures
        match r {
            Result::Ok(items) => chain_spec(store@, start, fuel as nat) == Result::<Seq<ItemView>, OutlineError>::Ok(items_view(items@)),
            Result::Err(e) => chain_spec(store@, start, fuel as nat) == Result::<Seq<ItemView>, OutlineError>::Err(e),
        },
    decreases fuel,
{
    let d: &crate::store::PdfDict = match store.get(start) {
        Option::Some(PdfObj::Dict(d)) => d,
        _ => {
            return Result::Err(OutlineError::InvalidOutlines);
        },
    };
    let title: Option<String> = match extract_title(d) {
        Result::Ok(t) => t,
        Result::Err(e) => {
            return Result::Err(e);
        },
    };
    let first_kb = first_key_bytes();
    let children: Vec<OutlineItem> = match d.get(first_kb.as_slice()) {
        Option::Some(PdfValue::Ref(id)) => {
            if fuel == 0 {
                return Result::Err(OutlineError::CyclicOutline);
            }
            match collect_chain(store, *id, fuel - 1) {
                Result::Ok(c) => c,
                Result::Err(e) => {
                    return Result::Err(e);
                },
            }
        },
        _ => Vec::new(),
    };
    let next_kb = next_key_bytes();
    let mut rest: Vec<OutlineItem> = match d.get(next_kb.as_slice()) {
        Option::Some(PdfValue::Ref(id)) => {
            if fuel == 0 {
                return Result::Err(OutlineError::CyclicOutline);
            }
            match collect_chain(store, *id, fuel - 1) {
                Result::Ok(c) => c,
                Result::Err(e) => {
                    return Result::Err(e);
                },
            }
        },
        _ => Vec::new(),
    };
    let ghost rest_view = rest@;
    let item = OutlineItem { title, children };
    let mut items: Vec<OutlineItem> = Vec::new();
    items.push(item);
    items.append(&mut rest);
    proof {
        assert(items@ =~= seq![item] + rest_view);
        lemma_items_view_cons(item, rest_view);
    }
    Result::Ok(items)
}

/// Extract the outline tree of a document: resolve the entry chain in the
/// trailer and catalog, then walk the top-level sibling chain. Exactly the
/// documents whose structure resolves and whose titles decode yield `Ok`;
/// every other document yields the error of the first step that fails.
pub fn extract_outline(store: &DocStore) -> (r: Result<Vec<OutlineItem>, OutlineError>)
    ensures
        match r {
            Result::Ok(items) => outline_spec(store@) == Result::<Seq<ItemView>, OutlineError>::Ok(items_view(items@)),
            Result::Err(e) => outline_spec(store@) == Result::<Seq<ItemView>, OutlineError>::Err(e),
        },
{
    let root_kb = root_key_bytes();
    let catalog_id: ObjId = match store.trailer.get(root_kb.as_slice()) {
        Option::Some(PdfValue::Ref(id)) => *id,
        _ => {
            return Result::Err(OutlineError::MissingRoot);
        },
    };
    let catalog: &crate::store::PdfDict = match store.get(catalog_id) {
        Option::Some(PdfObj::Dict(d)) => d,
        _ => {
            return Result::Err(OutlineError::InvalidCatalog);
        },
    };
    let outlines_kb = outlines_key_bytes();
    let outlines_id: ObjId = match catalog.get(outlines_kb.as_slice()) {
        Option::Some(PdfValue::Ref(id)) => *id,
        _ => {
            return Result::Err(OutlineError::InvalidOutlines);
        },
    };
    let outline_root: &PdfObj = match store.get(outlines_id) {
        Option::Some(o) => o,
        Option::None => {
            return Result::Err(OutlineError::InvalidOutlines);
        },
    };
    let outline_dict: &crate::store::PdfDict = match outline_root {
        PdfObj::Dict(d) => d,
        _ => {
            return Result::Err(OutlineError::InvalidOutlineRoot);
        },
    };
    let first_kb = first_key_bytes();
    let first_id: ObjId = match outline_dict.get(first_kb.as_slice()) {
        Option::Some(PdfValue::Ref(id)) => *id,
        _ => {
            return Result::Err(OutlineError::InvalidOutlines);
        },
    };
    collect_chain(store, first_id, store.objects.len())
}

/// The number of nodes on the sibling chain from `start`, following `Next`
/// links until absent: `None` when a node does not resolve to a dictionary
/// or the links exceed `fuel`.
pub open spec fn sibling_count(s: StoreView, start: ObjId, fuel: nat) -> Option<nat>
    decreases fuel,
{
    match lookup_spec(s.objects, start) {
        Option::Some(ObjView::Dict(d)) => match dict_get_spec(d, next_key()) {
            Option::Some(ValView::Ref(id)) => if fuel == 0 {
                Option::None
            } else {
                match sibling_count(s, id, (fuel - 1) as nat) {
                    Option::Some(n) => Option::Some((n + 1) as nat),
                    Option::None => Option::None,
                }
            },
            _ => Option::Some(1),
        },
        _ => Option::None,
    }
}

/// Law: when a sibling chain resolves to items, their number equals the
/// number of sibling links traversed from `start` via `Next` until absent.
pub proof fn lemma_chain_count(s: StoreView, start: ObjId, fuel: nat, items: Seq<ItemView>)
    requires
        chain_spec(s, start, fuel) == Result::<Seq<ItemView>, OutlineError>::Ok(items),
    ensures
        sibling_count(s, start, fuel) == Option::Some(items.len()),
    decreases fuel,
{
    let d = lookup_spec(s.objects, start)->Some_0->Dict_0;
    match dict_get_spec(d, next_key()) {
        Option::Some(ValView::Ref(id)) => {
            let rest = chain_spec(s, id, (fuel - 1) as nat)->Ok_0;
            lemma_chain_count(s, id, (fuel - 1) as nat, rest);
        },
        _ => {},
    }
}

/// Law: for a well-formed outline, the number of top-level output items
/// equals the number of sibling links traversed from the first top-level
/// reference via `Next` until absent.
pub proof fn lemma_outline_top_count(s: StoreView, first_id: ObjId, items: Seq<ItemView>)
    requires
        entry_spec(s) == Result::<ObjId, OutlineError>::Ok(first_id),
        outline_spec(s) == Result::<Seq<ItemView>, OutlineError>::Ok(items),
    ensures
        sibling_count(s, first_id, s.objects.len()) == Option::Some(items.len()),
{
    lemma_chain_count(s, first_id, s.objects.len(), items);
}

} // verus!
