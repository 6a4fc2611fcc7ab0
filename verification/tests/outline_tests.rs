use pdf_outline::outline::{extract_outline, OutlineItem};
use pdf_outline::store::{DocStore, ObjId, PdfDict, PdfObj, PdfValue};
use pdf_outline::OutlineError;

fn id(n: u32) -> ObjId {
    ObjId { num: n, gen: 0 }
}

fn dict(entries: Vec<(&[u8], PdfValue)>) -> PdfDict {
    PdfDict { entries: entries.into_iter().map(|(k, v)| (k.to_vec(), v)).collect() }
}

fn utf16be(text: &str) -> Vec<u8> {
    let mut bytes = vec![0xFE, 0xFF];
    for unit in text.encode_utf16() {
        bytes.extend_from_slice(&unit.to_be_bytes());
    }
    bytes
}

/// The document of the nested scenario: node A ("Chapter 1", no children),
/// its sibling B (UTF-16BE "Chapter 2") with child C ("Section 2.1").
fn sample_store() -> DocStore {
    let catalog = dict(vec![(b"Outlines", PdfValue::Ref(id(2)))]);
    let outline_root = dict(vec![(b"First", PdfValue::Ref(id(3)))]);
    let node_a = dict(vec![
        (b"Title", PdfValue::Text(b"Chapter 1".to_vec())),
        (b"Next", PdfValue::Ref(id(4))),
    ]);
    let node_b = dict(vec![
        (b"Title", PdfValue::Text(utf16be("Chapter 2"))),
        (b"First", PdfValue::Ref(id(5))),
    ]);
    let node_c = dict(vec![(b"Title", PdfValue::Text(b"Section 2.1".to_vec()))]);
    DocStore {
        objects: vec![
            (id(1), PdfObj::Dict(catalog)),
            (id(2), PdfObj::Dict(outline_root)),
            (id(3), PdfObj::Dict(node_a)),
            (id(4), PdfObj::Dict(node_b)),
            (id(5), PdfObj::Dict(node_c)),
        ],
        trailer: dict(vec![(b"Root", PdfValue::Ref(id(1)))]),
    }
}

#[test]
fn nested_scenario_tree() {
    let store = sample_store();
    let items = extract_outline(&store).unwrap();
    assert_eq!(items.len(), 2);
    assert_eq!(items[0].title.as_deref(), Some("Chapter 1"));
    assert!(items[0].children.is_empty());
    assert_eq!(items[1].title.as_deref(), Some("Chapter 2"));
    assert_eq!(items[1].children.len(), 1);
    assert_eq!(items[1].children[0].title.as_deref(), Some("Section 2.1"));
    assert!(items[1].children[0].children.is_empty());
}

#[test]
fn nested_scenario_text() {
    let store = sample_store();
    let items = extract_outline(&store).unwrap();
    let text = pdf_outline::text::render_text(&items);
    assert_eq!(text, "- Chapter 1\n- Chapter 2\n    - Section 2.1\n");
}

#[test]
fn top_level_count_matches_sibling_links() {
    // Three siblings at the top level, one of them with a child: the child
    // does not change the top-level count.
    let catalog = dict(vec![(b"Outlines", PdfValue::Ref(id(2)))]);
    let outline_root = dict(vec![(b"First", PdfValue::Ref(id(3)))]);
    let n1 = dict(vec![
        (b"Title", PdfValue::Text(b"one".to_vec())),
        (b"Next", PdfValue::Ref(id(4))),
    ]);
    let n2 = dict(vec![
        (b"Title", PdfValue::Text(b"two".to_vec())),
        (b"First", PdfValue::Ref(id(6))),
        (b"Next", PdfValue::Ref(id(5))),
    ]);
    let n3 = dict(vec![(b"Title", PdfValue::Text(b"three".to_vec()))]);
    let kid = dict(vec![(b"Title", PdfValue::Text(b"kid".to_vec()))]);
    let store = DocStore {
        objects: vec![
            (id(1), PdfObj::Dict(catalog)),
            (id(2), PdfObj::Dict(outline_root)),
            (id(3), PdfObj::Dict(n1)),
            (id(4), PdfObj::Dict(n2)),
            (id(5), PdfObj::Dict(n3)),
            (id(6), PdfObj::Dict(kid)),
        ],
        trailer: dict(vec![(b"Root", PdfValue::Ref(id(1)))]),
    };
    let items = extract_outline(&store).unwrap();
    assert_eq!(items.len(), 3);
    assert_eq!(items[1].children.len(), 1);
}

#[test]
fn absent_title_is_none() {
    let catalog = dict(vec![(b"Outlines", PdfValue::Ref(id(2)))]);
    let outline_root = dict(vec![(b"First", PdfValue::Ref(id(3)))]);
    let node = dict(vec![]);
    let store = DocStore {
        objects: vec![
            (id(1), PdfObj::Dict(catalog)),
            (id(2), PdfObj::Dict(outline_root)),
            (id(3), PdfObj::Dict(node)),
        ],
        trailer: dict(vec![(b"Root", PdfValue::Ref(id(1)))]),
    };
    let items = extract_outline(&store).unwrap();
    assert_eq!(items.len(), 1);
    assert_eq!(items[0].title, None);
}

#[test]
fn non_text_title_is_none() {
    let catalog = dict(vec![(b"Outlines", PdfValue::Ref(id(2)))]);
    let outline_root = dict(vec![(b"First", PdfValue::Ref(id(3)))]);
    // The Title entry holds a reference, not a text string.
    let node = dict(vec![(b"Title", PdfValue::Ref(id(9)))]);
    let store = DocStore {
        objects: vec![
            (id(1), PdfObj::Dict(catalog)),
            (id(2), PdfObj::Dict(outline_root)),
            (id(3), PdfObj::Dict(node)),
        ],
        trailer: dict(vec![(b"Root", PdfValue::Ref(id(1)))]),
    };
    let items = extract_outline(&store).unwrap();
    assert_eq!(items[0].title, None);
}

#[test]
fn untitled_node_renders_placeholder() {
    let catalog = dict(vec![(b"Outlines", PdfValue::Ref(id(2)))]);
    let outline_root = dict(vec![(b"First", PdfValue::Ref(id(3)))]);
    let node = dict(vec![]);
    let store = DocStore {
        objects: vec![
            (id(1), PdfObj::Dict(catalog)),
            (id(2), PdfObj::Dict(outline_root)),
            (id(3), PdfObj::Dict(node)),
        ],
        trailer: dict(vec![(b"Root", PdfValue::Ref(id(1)))]),
    };
    let items = extract_outline(&store).unwrap();
    let text = pdf_outline::text::render_text(&items);
    assert_eq!(text, "- <Untitled>\n");
}

#[test]
fn indent_grows_four_spaces_per_level() {
    let catalog = dict(vec![(b"Outlines", PdfValue::Ref(id(2)))]);
    let outline_root = dict(vec![(b"First", PdfValue::Ref(id(3)))]);
    let top = dict(vec![
        (b"Title", PdfValue::Text(b"top".to_vec())),
        (b"First", PdfValue::Ref(id(4))),
    ]);
    let mid = dict(vec![
        (b"Title", PdfValue::Text(b"mid".to_vec())),
        (b"First", PdfValue::Ref(id(5))),
    ]);
    let deep = dict(vec![(b"Title", PdfValue::Text(b"deep".to_vec()))]);
    let store = DocStore {
        objects: vec![
            (id(1), PdfObj::Dict(catalog)),
            (id(2), PdfObj::Dict(outline_root)),
            (id(3), PdfObj::Dict(top)),
            (id(4), PdfObj::Dict(mid)),
            (id(5), PdfObj::Dict(deep)),
        ],
        trailer: dict(vec![(b"Root", PdfValue::Ref(id(1)))]),
    };
    let items = extract_outline(&store).unwrap();
    let text = pdf_outline::text::render_text(&items);
    assert_eq!(text, "- top\n    - mid\n        - deep\n");
}

#[test]
fn missing_outlines_entry_fails() {
    // The catalog lacks an Outlines entry: the run fails with the invalid
    // outlines error and produces no output.
    let catalog = dict(vec![]);
    let store = DocStore {
        objects: vec![(id(1), PdfObj::Dict(catalog))],
        trailer: dict(vec![(b"Root", PdfValue::Ref(id(1)))]),
    };
    assert_eq!(extract_outline(&store), Err(OutlineError::InvalidOutlines));
}

#[test]
fn missing_root_fails() {
    let store = DocStore { objects: vec![], trailer: dict(vec![]) };
    assert_eq!(extract_outline(&store), Err(OutlineError::MissingRoot));
}

#[test]
fn non_reference_root_fails() {
    let store = DocStore {
        objects: vec![],
        trailer: dict(vec![(b"Root", PdfValue::Text(b"nope".to_vec()))]),
    };
    assert_eq!(extract_outline(&store), Err(OutlineError::MissingRoot));
}

#[test]
fn unresolvable_catalog_fails() {
    let store = DocStore {
        objects: vec![],
        trailer: dict(vec![(b"Root", PdfValue::Ref(id(1)))]),
    };
    assert_eq!(extract_outline(&store), Err(OutlineError::InvalidCatalog));
}

#[test]
fn non_dictionary_catalog_fails() {
    let store = DocStore {
        objects: vec![(id(1), PdfObj::Text(b"not a dict".to_vec()))],
        trailer: dict(vec![(b"Root", PdfValue::Ref(id(1)))]),
    };
    assert_eq!(extract_outline(&store), Err(OutlineError::InvalidCatalog));
}

#[test]
fn non_dictionary_outline_root_fails() {
    let catalog = dict(vec![(b"Outlines", PdfValue::Ref(id(2)))]);
    let store = DocStore {
        objects: vec![
            (id(1), PdfObj::Dict(catalog)),
            (id(2), PdfObj::Text(b"not a dict".to_vec())),
        ],
        trailer: dict(vec![(b"Root", PdfValue::Ref(id(1)))]),
    };
    assert_eq!(extract_outline(&store), Err(OutlineError::InvalidOutlineRoot));
}

#[test]
fn unresolvable_chain_node_fails() {
    let catalog = dict(vec![(b"Outlines", PdfValue::Ref(id(2)))]);
    let outline_root = dict(vec![(b"First", PdfValue::Ref(id(3)))]);
    let store = DocStore {
        objects: vec![
            (id(1), PdfObj::Dict(catalog)),
            (id(2), PdfObj::Dict(outline_root)),
        ],
        trailer: dict(vec![(b"Root", PdfValue::Ref(id(1)))]),
    };
    assert_eq!(extract_outline(&store), Err(OutlineError::InvalidOutlines));
}

#[test]
fn undecodable_utf16_title_aborts_extraction() {
    let catalog = dict(vec![(b"Outlines", PdfValue::Ref(id(2)))]);
    let outline_root = dict(vec![(b"First", PdfValue::Ref(id(3)))]);
    // An unpaired high surrogate after the marker.
    let node = dict(vec![(b"Title", PdfValue::Text(vec![0xFE, 0xFF, 0xD8, 0x00, 0x00, 0x41]))]);
    let store = DocStore {
        objects: vec![
            (id(1), PdfObj::Dict(catalog)),
            (id(2), PdfObj::Dict(outline_root)),
            (id(3), PdfObj::Dict(node)),
        ],
        trailer: dict(vec![(b"Root", PdfValue::Ref(id(1)))]),
    };
    assert_eq!(extract_outline(&store), Err(OutlineError::DecodeUtf16));
}

#[test]
fn self_referencing_sibling_fails() {
    let catalog = dict(vec![(b"Outlines", PdfValue::Ref(id(2)))]);
    let outline_root = dict(vec![(b"First", PdfValue::Ref(id(3)))]);
    // The node names itself as its next sibling.
    let node = dict(vec![
        (b"Title", PdfValue::Text(b"loop".to_vec())),
        (b"Next", PdfValue::Ref(id(3))),
    ]);
    let store = DocStore {
        objects: vec![
            (id(1), PdfObj::Dict(catalog)),
            (id(2), PdfObj::Dict(outline_root)),
            (id(3), PdfObj::Dict(node)),
        ],
        trailer: dict(vec![(b"Root", PdfValue::Ref(id(1)))]),
    };
    assert_eq!(extract_outline(&store), Err(OutlineError::CyclicOutline));
}

#[test]
fn non_reference_first_means_no_children() {
    let catalog = dict(vec![(b"Outlines", PdfValue::Ref(id(2)))]);
    let outline_root = dict(vec![(b"First", PdfValue::Ref(id(3)))]);
    // First holds a text value, not a reference: treated as absent.
    let node = dict(vec![
        (b"Title", PdfValue::Text(b"leaf".to_vec())),
        (b"First", PdfValue::Text(b"bogus".to_vec())),
    ]);
    let store = DocStore {
        objects: vec![
            (id(1), PdfObj::Dict(catalog)),
            (id(2), PdfObj::Dict(outline_root)),
            (id(3), PdfObj::Dict(node)),
        ],
        trailer: dict(vec![(b"Root", PdfValue::Ref(id(1)))]),
    };
    let items = extract_outline(&store).unwrap();
    assert_eq!(items.len(), 1);
    assert!(items[0].children.is_empty());
}

#[test]
fn error_messages_name_the_step() {
    assert_eq!(
        OutlineError::MissingRoot.message(),
        "missing or invalid Root in trailer"
    );
    assert_eq!(
        OutlineError::DecodeUtf16.message(),
        "failed to decode bytes as UTF-16BE"
    );
}
