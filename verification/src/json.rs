use vstd::prelude::*;
use vstd::string::StringExecFns;

use crate::outline::{item_view, items_view, ItemView, OutlineItem};

verus! {

/// A JSON document: null, a string, an array, or an object with ordered
/// fields. Only the shapes that outline trees render to are produced here,
/// but parsing inspects arbitrary documents.
#[derive(Debug, PartialEq)]
pub enum JsonValue {
    Null,
    Str(String),
    Arr(Vec<JsonValue>),
    Obj(Vec<(String, JsonValue)>),
}

/// Mathematical model of a JSON document.
pub enum JsonView {
    Null,
    Str(Seq<char>),
    Arr(Seq<JsonView>),
    Obj(Seq<(Seq<char>, JsonView)>),
}

/// Mathematical model of a JSON document.
pub open spec fn json_view(v: JsonValue) -> JsonView
    decreases v, 0nat,
{
    match v {
        JsonValue::Null => JsonView::Null,
        JsonValue::Str(s) => JsonView::Str(s@),
        JsonValue::Arr(a) => JsonView::Arr(jsons_view(a@)),
        JsonValue::Obj(o) => JsonView::Obj(entries_view(o@)),
    }
}

/// Mathematical model of a sequence of JSON documents.
pub open spec fn jsons_view(a: Seq<JsonValue>) -> Seq<JsonView>
    decreases a, 1nat,
{
    if a.len() == 0 {
        Seq::empty()
    } else {
        seq![json_view(a[0])] + jsons_view(a.subrange(1, a.len() as int))
    }
}

/// Mathematical model of a sequence of JSON object fields.
pub open spec fn entries_view(o: Seq<(String, JsonValue)>) -> Seq<(Seq<char>, JsonView)>
    decreases o, 1nat,
{
    if o.len() == 0 {
        Seq::empty()
    } else {
        seq![(o[0].0@, json_view(o[0].1))] + entries_view(o.subrange(1, o.len() as int))
    }
}

/// The field name carrying a node's title.
pub open spec fn title_field() -> Seq<char> {
    seq!['t', 'i', 't', 'l', 'e']
}

/// The field name carrying a node's children.
pub open spec fn children_field() -> Seq<char> {
    seq!['c', 'h', 'i', 'l', 'd', 'r', 'e', 'n']
}

/// The JSON rendering of a sequence of outline nodes: for each node an
/// object with a `title` field (string or null) and a `children` field (an
/// array, possibly empty), in order.
pub open spec fn items_to_json_seq(items: Seq<ItemView>) -> Seq<JsonView>
    decreases items,
{
    if items.len() == 0 {
        Seq::empty()
    } else {
        seq![
            JsonView::Obj(
                seq![
                    (
                        title_field(),
                        match items[0].title {
                            Option::Some(s) => JsonView::Str(s),
                            Option::None => JsonView::Null,
                        },
                    ),
                    (children_field(), JsonView::Arr(items_to_json_seq(items[0].children))),
                ],
            ),
        ] + items_to_json_seq(items.subrange(1, items.len() as int))
    }
}

/// The JSON rendering of an outline tree: an array of node objects.
pub open spec fn items_to_json(items: Seq<ItemView>) -> JsonView {
    JsonView::Arr(items_to_json_seq(items))
}

/// The outline nodes parsed back from a sequence of JSON documents: each
/// element must be an object with exactly a `title` field (string or null)
/// and a `children` field (an array), in that order.
pub open spec fn json_items_of_seq(elems: Seq<JsonView>) -> Option<Seq<ItemView>>
    decreases elems,
{
    if elems.len() == 0 {
        Option::Some(Seq::<ItemView>::empty())
    } else {
        let rest_r = json_items_of_seq(elems.subrange(1, elems.len() as int));
        match elems[0] {
            JsonView::Obj(fields) => {
                if fields.len() == 2 && fields[0].0 == title_field() && fields[1].0 == children_field() {
                    let title_r: Option<Option<Seq<char>>> = match fields[0].1 {
                        JsonView::Str(s) => Option::Some(Option::Some(s)),
                        JsonView::Null => Option::Some(Option::None),
                        _ => Option::None,
                    };
                    let kids_r: Option<Seq<ItemView>> = match fields[1].1 {
                        JsonView::Arr(kids) => json_items_of_seq(kids),
                        _ => Option::None,
                    };
                    match (title_r, kids_r, rest_r) {
                        (Option::Some(t), Option::Some(k), Option::Some(r)) => Option::Some(
                            seq![ItemView { title: t, children: k }] + r,
                        ),
                        _ => Option::None,
                    }
                } else {
                    Option::None
                }
            },
            _ => Option::None,
        }
    }
}

/// The outline tree parsed back from a JSON document, when it has the shape
/// that rendering produces.
pub open spec fn json_items_of(j: JsonView) -> Option<Seq<ItemView>> {
    match j {
        JsonView::Arr(elems) => json_items_of_seq(elems),
        _ => Option::None,
    }
}

/// Law: a node whose title is absent renders to JSON with a null `title`
/// field.
pub proof fn lemma_untitled_json_null(items: Seq<ItemView>)
    requires
        items.len() > 0,
        items[0].title is None,
    ensures
        items_to_json_seq(items)[0] == JsonView::Obj(
            seq![
                (title_field(), JsonView::Null),
                (children_field(), JsonView::Arr(items_to_json_seq(items[0].children))),
            ],
        ),
{
    let head = JsonView::Obj(
        seq![
            (
                title_field(),
                match items[0].title {
                    Option::Some(s) => JsonView::Str(s),
                    Option::None => JsonView::Null,
                },
            ),
            (children_field(), JsonView::Arr(items_to_json_seq(items[0].children))),
        ],
    );
    assert(items_to_json_seq(items)[0] == head);
    assert(head->Obj_0 =~= seq![
        (title_field(), JsonView::Null),
        (children_field(), JsonView::Arr(items_to_json_seq(items[0].children))),
    ]);
}

/// Law: rendering a tree to JSON and parsing it back yields the tree
/// unchanged — identical titles and identical child ordering and nesting.
pub proof fn lemma_json_round_trip(items: Seq<ItemView>)
    ensures
        json_items_of(items_to_json(items)) == Option::Some(items),
{
    lemma_json_round_trip_seq(items);
}

proof fn lemma_json_round_trip_seq(items: Seq<ItemView>)
    ensures
        json_items_of_seq(items_to_json_seq(items)) == Option::Some(items),
    decreases items,
{
    if items.len() == 0 {
    } else {
        let tail = items.subrange(1, items.len() as int);
        lemma_json_round_trip_seq(items[0].children);
        lemma_json_round_trip_seq(tail);
        let elems = items_to_json_seq(items);
        assert(elems.subrange(1, elems.len() as int) =~= items_to_json_seq(tail));
        assert(seq![items[0]] + tail =~= items);
    }
}

/// The `title` field name as a string.
fn title_field_string() -> (r: String)
    ensures
        r@ == title_field(),
{
    let s = <String as StringExecFns>::from_str("title");
    proof {
        reveal_strlit("title");
        assert(s@ =~= title_field());
    }
    s
}

/// The `children` field name as a string.
fn children_field_string() -> (r: String)
    ensures
        r@ == children_field(),
{
    let s = <String as StringExecFns>::from_str("children");
    proof {
        reveal_strlit("children");
        assert(s@ =~= children_field());
    }
    s
}

fn to_json_seq(items: &[OutlineItem]) -> (r: Vec<JsonValue>)
    ensures
        jsons_view(r@) == items_to_json_seq(items_view(items@)),
    decreases items@,
{
    if items.len() == 0 {
        let r: Vec<JsonValue> = Vec::new();
        proof {
            assert(items_view(items@) =~= Seq::<ItemView>::empty());
            assert(jsons_view(r@) =~= items_to_json_seq(items_view(items@)));
        }
        return r;
    }
    let head = &items[0];
    let title_v: JsonValue = match &head.title {
        Option::Some(s) => JsonValue::Str(s.clone()),
        Option::None => JsonValue::Null,
    };
    let kids: Vec<JsonValue> = to_json_seq(head.children.as_slice());
    let mut fields: Vec<(String, JsonValue)> = Vec::new();
    fields.push((title_field_string(), title_v));
    fields.push((children_field_string(), JsonValue::Arr(kids)));
    let obj = JsonValue::Obj(fields);
    let rest_slice = vstd::slice::slice_subrange(items, 1, items.len());
    let mut rest = to_json_seq(rest_slice);
    let ghost rest_view = rest@;
    let mut out: Vec<JsonValue> = Vec::new();
    out.push(obj);
    out.append(&mut rest);
    proof {
        reveal_with_fuel(entries_view, 3);
        reveal_with_fuel(jsons_view, 2);
        reveal_with_fuel(items_to_json_seq, 2);
        reveal_with_fuel(items_view, 2);
        let iv = items_view(items@);
        assert(rest_slice@ =~= items@.subrange(1, items@.len() as int));
        assert(iv[0] == item_view(items@[0]));
        assert(iv.subrange(1, iv.len() as int) =~= items_view(items@.subrange(1, items@.len() as int)));
        let fv = entries_view(obj->Obj_0@);
        assert(obj->Obj_0@.subrange(1, 2).subrange(1, 1) =~= Seq::<(String, JsonValue)>::empty());
        assert(obj->Obj_0@.subrange(1, 2)[0] == obj->Obj_0@[1]);
        assert(fv =~= seq![
            (title_field(), json_view(title_v)),
            (children_field(), JsonView::Arr(jsons_view(kids@))),
        ]);
        assert(out@ =~= seq![obj] + rest_view);
        assert(out@.subrange(1, out@.len() as int) =~= rest_view);
        assert(out@[0] == obj);
        assert(jsons_view(out@) =~= seq![json_view(obj)] + jsons_view(rest_view));
        assert(iv.subrange(1, iv.len() as int) =~= items_view(items@.subrange(1, items@.len() as int)));
        assert(iv[0].title == items@[0].title.deep_view());
        assert(iv[0].children == items_view(items@[0].children@));
        assert(json_view(title_v) == (match iv[0].title {
            Option::Some(s) => JsonView::Str(s),
            Option::None => JsonView::Null,
        }));
        assert(head == items@[0]);
        assert(json_view(obj) == JsonView::Obj(fv));
        assert(jsons_view(kids@) == items_to_json_seq(iv[0].children));
        assert((title_field(), json_view(title_v)) == (
            title_field(),
            match iv[0].title {
                Option::Some(s) => JsonView::Str(s),
                Option::None => JsonView::Null,
            },
        ));
        assert((children_field(), JsonView::Arr(jsons_view(kids@))) == (
            children_field(),
            JsonView::Arr(items_to_json_seq(iv[0].children)),
        ));
        assert(fv =~= seq![
            (
                title_field(),
                match iv[0].title {
                    Option::Some(s) => JsonView::Str(s),
                    Option::None => JsonView::Null,
                },
            ),
            (children_field(), JsonView::Arr(items_to_json_seq(iv[0].children))),
        ]);
        assert(json_view(obj) == JsonView::Obj(
            seq![
                (
                    title_field(),
                    match iv[0].title {
                        Option::Some(s) => JsonView::Str(s),
                        Option::None => JsonView::Null,
                    },
                ),
                (children_field(), JsonView::Arr(items_to_json_seq(iv[0].children))),
            ],
        ));
        assert(items_to_json_seq(iv) =~= seq![json_view(obj)] + items_to_json_seq(iv.subrange(1, iv.len() as int)));
        assert(jsons_view(out@) =~= items_to_json_seq(items_view(items@)));
    }
    out
}

/// Render an outline tree as a JSON document: an array of node objects,
/// each with a `title` field (string or null) and a `children` field.
pub fn to_json(items: &Vec<OutlineItem>) -> (r: JsonValue)
    ensures
        json_view(r) == items_to_json(items_view(items@)),
{
    let elems = to_json_seq(items.as_slice());
    JsonValue::Arr(elems)
}

fn from_json_seq(elems: &[JsonValue]) -> (r: Option<Vec<OutlineItem>>)
    ensures
        match r {
            Option::Some(items) => json_items_of_seq(jsons_view(elems@)) == Option::Some(items_view(items@)),
            Option::None => json_items_of_seq(jsons_view(elems@)) is None,
        },
    decreases elems@,
{
    if elems.len() == 0 {
        let r: Vec<OutlineItem> = Vec::new();
        proof {
            assert(jsons_view(elems@) =~= Seq::<JsonView>::empty());
            assert(items_view(r@) =~= Seq::<ItemView>::empty());
        }
        return Option::Some(r);
    }
    proof {
        let jv = jsons_view(elems@);
        assert(jv[0] == json_view(elems@[0]));
        assert(jv.subrange(1, jv.len() as int) =~= jsons_view(elems@.subrange(1, elems@.len() as int)));
    }
    let fields: &Vec<(String, JsonValue)> = match &elems[0] {
        JsonValue::Obj(fields) => fields,
        _ => {
            return Option::None;
        },
    };
    proof {
        reveal_with_fuel(entries_view, 3);
        if fields@.len() == 2 {
            let fv = entries_view(fields@);
            assert(fields@.subrange(1, 2).subrange(1, 1) =~= Seq::<(String, JsonValue)>::empty());
            assert(fields@.subrange(1, 2)[0] == fields@[1]);
            assert(fv =~= seq![
                (fields@[0].0@, json_view(fields@[0].1)),
                (fields@[1].0@, json_view(fields@[1].1)),
            ]);
        }
    }
    if fields.len() != 2 {
        proof {
            lemma_entries_view_len(fields@);
        }
        return Option::None;
    }
    let tf = title_field_string();
    let cf = children_field_string();
    if !(fields[0].0 == tf) || !(fields[1].0 == cf) {
        return Option::None;
    }
    let title: Option<String> = match &fields[0].1 {
        JsonValue::Str(s) => Option::Some(s.clone()),
        JsonValue::Null => Option::None,
        _ => {
            return Option::None;
        },
    };
    let kids_json: &Vec<JsonValue> = match &fields[1].1 {
        JsonValue::Arr(kids) => kids,
        _ => {
            return Option::None;
        },
    };
    let children: Vec<OutlineItem> = match from_json_seq(kids_json.as_slice()) {
        Option::Some(c) => c,
        Option::None => {
            return Option::None;
        },
    };
    let rest_slice = vstd::slice::slice_subrange(elems, 1, elems.len());
    proof {
        assert(rest_slice@ =~= elems@.subrange(1, elems@.len() as int));
    }
    let mut rest: Vec<OutlineItem> = match from_json_seq(rest_slice) {
        Option::Some(r) => r,
        Option::None => {
            return Option::None;
        },
    };
    let ghost rest_view = rest@;
    let item = OutlineItem { title, children };
    let mut out: Vec<OutlineItem> = Vec::new();
    out.push(item);
    out.append(&mut rest);
    proof {
        assert(out@ =~= seq![item] + rest_view);
        crate::outline::lemma_items_view_cons(item, rest_view);
    }
    Option::Some(out)
}

/// The number of fields an object's model has equals the number it holds.
proof fn lemma_entries_view_len(o: Seq<(String, JsonValue)>)
    ensures
        entries_view(o).len() == o.len(),
    decreases o,
{
    if o.len() == 0 {
    } else {
        lemma_entries_view_len(o.subrange(1, o.len() as int));
    }
}

/// Parse an outline tree back from a JSON document: succeeds exactly on the
/// shape that rendering produces, and then recovers titles, ordering and
/// nesting unchanged.
pub fn from_json(j: &JsonValue) -> (r: Option<Vec<OutlineItem>>)
    ensures
        match r {
            Option::Some(items) => json_items_of(json_view(*j)) == Option::Some(items_view(items@)),
            Option::None => json_items_of(json_view(*j)) is None,
        },
{
    match j {
        JsonValue::Arr(elems) => from_json_seq(elems.as_slice()),
        _ => Option::None,
    }
}

} // verus!
