use pdf_outline::json::{from_json, to_json, JsonValue};
use pdf_outline::outline::OutlineItem;
use pdf_outline::title::decode_title;
use pdf_outline::OutlineError;

fn utf16be(text: &str) -> Vec<u8> {
    let mut bytes = vec![0xFE, 0xFF];
    for unit in text.encode_utf16() {
        bytes.extend_from_slice(&unit.to_be_bytes());
    }
    bytes
}

#[test]
fn utf16_title_decodes_exactly() {
    assert_eq!(decode_title(&utf16be("Chapter 2")).unwrap(), "Chapter 2");
}

#[test]
fn utf16_title_with_surrogate_pair() {
    // U+1F600 needs a surrogate pair in UTF-16.
    assert_eq!(decode_title(&utf16be("a\u{1F600}b")).unwrap(), "a\u{1F600}b");
}

#[test]
fn empty_utf16_title_is_empty_string() {
    // Zero bytes after the marker decode to the empty string, not an error.
    assert_eq!(decode_title(&vec![0xFE, 0xFF]).unwrap(), "");
}

#[test]
fn unpaired_surrogate_is_an_error() {
    assert_eq!(
        decode_title(&vec![0xFE, 0xFF, 0xD8, 0x3D]),
        Err(OutlineError::DecodeUtf16)
    );
}

#[test]
fn odd_byte_count_after_marker_is_an_error() {
    assert_eq!(
        decode_title(&vec![0xFE, 0xFF, 0x00]),
        Err(OutlineError::DecodeUtf16)
    );
}

#[test]
fn plain_bytes_decode_as_utf8() {
    assert_eq!(decode_title(&b"Intro".to_vec()).unwrap(), "Intro");
}

#[test]
fn invalid_bytes_never_fail() {
    // 0xFF can start no UTF-8 sequence: it becomes the replacement
    // character instead of failing.
    assert_eq!(decode_title(&vec![0x48, 0xFF]).unwrap(), "H\u{FFFD}");
    assert_eq!(decode_title(&vec![0xFF, 0xFE, 0x41]).unwrap(), "\u{FFFD}\u{FFFD}A");
}

#[test]
fn single_marker_byte_is_plain_text() {
    // One byte is too short for the marker, so the permissive path runs.
    assert_eq!(decode_title(&vec![0xFE]).unwrap(), "\u{FFFD}");
}

fn leaf(title: Option<&str>) -> OutlineItem {
    OutlineItem { title: title.map(|t| t.to_string()), children: Vec::new() }
}

fn sample_tree() -> Vec<OutlineItem> {
    vec![
        OutlineItem {
            title: Some("Chapter 1".to_string()),
            children: vec![leaf(Some("Section 1.1")), leaf(None)],
        },
        leaf(None),
        OutlineItem {
            title: Some("Chapter 2".to_string()),
            children: vec![OutlineItem {
                title: None,
                children: vec![leaf(Some("deep"))],
            }],
        },
    ]
}

#[test]
fn json_round_trip_preserves_tree() {
    let tree = sample_tree();
    let rendered = to_json(&tree);
    let parsed = from_json(&rendered).unwrap();
    assert_eq!(parsed, tree);
}

#[test]
fn json_round_trip_empty_tree() {
    let tree: Vec<OutlineItem> = Vec::new();
    let parsed = from_json(&to_json(&tree)).unwrap();
    assert_eq!(parsed, tree);
}

#[test]
fn json_shape_of_a_leaf() {
    let tree = vec![leaf(Some("only"))];
    match to_json(&tree) {
        JsonValue::Arr(elems) => {
            assert_eq!(elems.len(), 1);
            match &elems[0] {
                JsonValue::Obj(fields) => {
                    assert_eq!(fields.len(), 2);
                    assert_eq!(fields[0].0, "title");
                    assert_eq!(fields[0].1, JsonValue::Str("only".to_string()));
                    assert_eq!(fields[1].0, "children");
                    assert_eq!(fields[1].1, JsonValue::Arr(Vec::new()));
                },
                other => panic!("expected an object, got {:?}", other),
            }
        },
        other => panic!("expected an array, got {:?}", other),
    }
}

#[test]
fn json_null_title_for_untitled_node() {
    let tree = vec![leaf(None)];
    match to_json(&tree) {
        JsonValue::Arr(elems) => match &elems[0] {
            JsonValue::Obj(fields) => assert_eq!(fields[0].1, JsonValue::Null),
            other => panic!("expected an object, got {:?}", other),
        },
        other => panic!("expected an array, got {:?}", other),
    }
}

#[test]
fn json_parse_rejects_other_shapes() {
    assert_eq!(from_json(&JsonValue::Null), None);
    assert_eq!(from_json(&JsonValue::Str("x".to_string())), None);
    assert_eq!(from_json(&JsonValue::Arr(vec![JsonValue::Null])), None);
}
