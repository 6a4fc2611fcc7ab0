use vstd::prelude::*;

use crate::store::{dict_get_spec, PdfDict, ValView};
use crate::OutlineError;

verus! {

/// The dictionary key under which a node's title is stored: `Title`.
pub open spec fn title_key() -> Seq<u8> {
    seq![0x54u8, 0x69u8, 0x74u8, 0x6cu8, 0x65u8]
}

/// The `Title` key as a byte string.
pub fn title_key_bytes() -> (r: Vec<u8>)
    ensures
        r@ == title_key(),
{
    let mut v: Vec<u8> = Vec::new();
    v.push(0x54);
    v.push(0x69);
    v.push(0x74);
    v.push(0x6c);
    v.push(0x65);
    proof {
        assert(v@ =~= title_key());
    }
    v
}

/// A byte string carries the UTF-16BE byte-order marker when it begins with
/// `0xFE 0xFF`.
pub open spec fn has_utf16_marker(b: Seq<u8>) -> bool {
    b.len() >= 2 && b[0] == 0xFE && b[1] == 0xFF
}

/// The big-endian 16-bit code units read from a byte string, two bytes each.
pub open spec fn be_units(b: Seq<u8>) -> Seq<u16> {
    Seq::new(b.len() / 2, |i: int| ((b[2 * i] as int) * 256 + (b[2 * i + 1] as int)) as u16)
}

/// A code unit in the high-surrogate range.
pub open spec fn is_high_surrogate(u: u16) -> bool {
    0xD800 <= u < 0xDC00
}

/// A code unit in the low-surrogate range.
pub open spec fn is_low_surrogate(u: u16) -> bool {
    0xDC00 <= u < 0xE000
}

/// The character encoded by a high/low surrogate pair.
pub open spec fn combine_surrogates(hi: u16, lo: u16) -> char
    recommends
        is_high_surrogate(hi),
        is_low_surrogate(lo),
{
    (0x10000 + ((hi as int) - 0xD800) * 0x400 + ((lo as int) - 0xDC00)) as char
}

/// UTF-16 decoding of a sequence of code units: a code unit outside the
/// surrogate ranges stands for itself, a high surrogate followed by a low
/// surrogate stands for one character, and anything else (an unpaired
/// surrogate) fails.
pub open spec fn utf16_decode(units: Seq<u16>) -> Option<Seq<char>>
    decreases units.len(),
{
    if units.len() == 0 {
        Option::Some(Seq::empty())
    } else if !is_high_surrogate(units[0]) && !is_low_surrogate(units[0]) {
        match utf16_decode(units.skip(1)) {
            Option::Some(rest) => Option::Some(seq![units[0] as char] + rest),
            Option::None => Option::None,
        }
    } else if is_high_surrogate(units[0]) && units.len() >= 2 && is_low_surrogate(units[1]) {
        match utf16_decode(units.skip(2)) {
            Option::Some(rest) => Option::Some(seq![combine_surrogates(units[0], units[1])] + rest),
            Option::None => Option::None,
        }
    } else {
        Option::None
    }
}

/// What decoding a raw title byte string yields: with the marker, strict
/// UTF-16BE decoding of the remainder (an odd byte count or an unpaired
/// surrogate fails); without it, the permissive 8-bit decoding, which never
/// fails.
pub open spec fn decode_title_spec(b: Seq<u8>) -> Result<Seq<char>, OutlineError> {
    if has_utf16_marker(b) {
        if b.skip(2).len() % 2 != 0 {
            Result::Err(OutlineError::DecodeUtf16)
        } else {
            match utf16_decode(be_units(b.skip(2))) {
                Option::Some(cs) => Result::Ok(cs),
                Option::None => Result::Err(OutlineError::DecodeUtf16),
            }
        }
    } else {
        Result::Ok(lossy_decode(b))
    }
}

/// The title extracted from a node dictionary: absent when the `Title` entry
/// is missing or not a text value, otherwise the decoding of its bytes.
pub open spec fn title_spec(d: Seq<(Seq<u8>, ValView)>) -> Result<Option<Seq<char>>, OutlineError> {
    match dict_get_spec(d, title_key()) {
        Option::Some(ValView::Text(b)) => match decode_title_spec(b) {
            Result::Ok(cs) => Result::Ok(Option::Some(cs)),
            Result::Err(e) => Result::Err(e),
        },
        _ => Result::Ok(Option::None),
    }
}

/// The characters that permissive 8-bit decoding yields for a byte string;
/// they depend on the bytes alone.
pub uninterp spec fn lossy_decode(b: Seq<u8>) -> Seq<char>;

/// Relies on String::from_utf8_lossy: total on every byte string, a function
/// of the bytes alone, the identity decoding on valid UTF-8, and empty on
/// empty input.
#[verifier::external_body]
fn utf8_lossy(b: &[u8]) -> (r: String)
    ensures
        r@ == lossy_decode(b@),
        b@.len() == 0 ==> r@.len() == 0,
        vstd::utf8::valid_utf8(b@) ==> r@ == vstd::utf8::decode_utf8(b@),
{
    String::from_utf8_lossy(b).to_string()
}

/// Relies on char::from_u32: `Some` exactly when the value is a Unicode
/// scalar value (at most 0x10FFFF and not a surrogate), and then the
/// character has that code point.
#[verifier::external_body]
fn char_from_u32(v: u32) -> (r: Option<char>)
    ensures
        r == (if v < 0xD800 || (0xE000 <= v && v <= 0x10FFFF) {
            Option::Some(v as char)
        } else {
            Option::None::<char>
        }),
{
    char::from_u32(v)
}

/// Relies on String::push: appends the given character at the end.
#[verifier::external_body]
fn push_char(s: &mut String, c: char)
    ensures
        final(s)@ == old(s)@.push(c),
{
    s.push(c);
}

/// The big-endian 16-bit code units of an even-length byte string.
fn utf16_units(tail: &[u8]) -> (r: Vec<u16>)
    requires
        tail@.len() % 2 == 0,
    ensures
        r@ == be_units(tail@),
{
    let mut units: Vec<u16> = Vec::new();
    let mut i: usize = 0;
    while i < tail.len()
        invariant
            tail@.len() % 2 == 0,
            i % 2 == 0,
            i <= tail@.len(),
            units@.len() == i / 2,
            forall|j: int| 0 <= j < i / 2 ==> units@[j] == be_units(tail@)[j],
        decreases tail@.len() - i,
    {
        let hi = tail[i];
        let lo = tail[i + 1];
        let u: u16 = (hi as u16) * 256 + (lo as u16);
        units.push(u);
        i += 2;
    }
    proof {
        assert(units@ =~= be_units(tail@));
    }
    units
}

/// Strict UTF-16 decoding of a sequence of code units.
fn decode_utf16_units(units: &Vec<u16>) -> (r: Result<String, OutlineError>)
    ensures
        match r {
            Result::Ok(s) => utf16_decode(units@) == Option::Some(s@),
            Result::Err(e) => utf16_decode(units@) is None && e == OutlineError::DecodeUtf16,
        },
{
    let n = units.len();
    let mut s = String::new();
    let mut i: usize = 0;
    proof {
        assert(units@.skip(0) =~= units@);
    }
    while i < n
        invariant
            n == units@.len(),
            i <= n,
            match utf16_decode(units@.skip(i as int)) {
                Option::Some(rest) => utf16_decode(units@) == Option::Some(s@ + rest),
                Option::None => utf16_decode(units@) is None,
            },
        decreases n - i,
    {
        let u = units[i];
        proof {
            assert(units@.skip(i as int)[0] == units@[i as int]);
        }
        if u < 0xD800 || u >= 0xE000 {
            proof {
                assert(units@.skip(i as int).skip(1) =~= units@.skip(i + 1));
            }
            match char_from_u32(u as u32) {
                Option::Some(c) => {
                    push_char(&mut s, c);
                    proof {
                        assert(seq![u as char].push(c) =~= seq![u as char, c]);
                    }
                },
                Option::None => {
                    proof {
                        assert(false);
                    }
                    return Err(OutlineError::DecodeUtf16);
                },
            }
            i += 1;
        } else if u < 0xDC00 && i + 1 < n && 0xDC00 <= units[i + 1] && units[i + 1] < 0xE000 {
            let lo = units[i + 1];
            proof {
                assert(units@.skip(i as int)[1] == units@[i + 1]);
                assert(units@.skip(i as int).skip(2) =~= units@.skip(i + 2));
            }
            let v: u32 = 0x10000 + ((u - 0xD800) as u32) * 0x400 + ((lo - 0xDC00) as u32);
            match char_from_u32(v) {
                Option::Some(c) => {
                    push_char(&mut s, c);
                },
                Option::None => {
                    proof {
                        assert(false);
                    }
                    return Err(OutlineError::DecodeUtf16);
                },
            }
            i += 2;
        } else {
            return Err(OutlineError::DecodeUtf16);
        }
    }
    proof {
        assert(units@.skip(n as int) =~= Seq::<u16>::empty());
        assert(s@ + Seq::<char>::empty() =~= s@);
    }
    Ok(s)
}

/// Decode a raw title byte string: strict UTF-16BE after the `0xFE 0xFF`
/// marker, permissive 8-bit decoding otherwise.
pub fn decode_title(bytes: &Vec<u8>) -> (r: Result<String, OutlineError>)
    ensures
        match r {
            Result::Ok(s) => decode_title_spec(bytes@) == Result::<Seq<char>, OutlineError>::Ok(s@),
            Result::Err(e) => decode_title_spec(bytes@) == Result::<Seq<char>, OutlineError>::Err(e),
        },
{
    if bytes.len() >= 2 && bytes[0] == 0xFE && bytes[1] == 0xFF {
        let tail = vstd::slice::slice_subrange(bytes.as_slice(), 2, bytes.len());
        proof {
            assert(tail@ =~= bytes@.skip(2));
        }
        if tail.len() % 2 != 0 {
            Err(OutlineError::DecodeUtf16)
        } else {
            let units = utf16_units(tail);
            decode_utf16_units(&units)
        }
    } else {
        Ok(utf8_lossy(bytes.as_slice()))
    }
}

/// Extract the optional title of a node dictionary.
pub fn extract_title(d: &PdfDict) -> (r: Result<Option<String>, OutlineError>)
    ensures
        match r {
            Result::Ok(t) => title_spec(d@) == Result::<Option<Seq<char>>, OutlineError>::Ok(t.deep_view()),
            Result::Err(e) => title_spec(d@) == Result::<Option<Seq<char>>, OutlineError>::Err(e),
        },
{
    let key = title_key_bytes();
    match d.get(key.as_slice()) {
        Option::Some(v) => match v {
            crate::store::PdfValue::Text(b) => match decode_title(b) {
                Result::Ok(s) => Result::Ok(Option::Some(s)),
                Result::Err(e) => Result::Err(e),
            },
            _ => Result::Ok(Option::None),
        },
        Option::None => Result::Ok(Option::None),
    }
}

/// Law: a node whose `Title` entry is absent or not a text value has an
/// absent title, and title extraction succeeds.
pub proof fn lemma_title_absent_or_nontext(d: Seq<(Seq<u8>, ValView)>)
    requires
        match dict_get_spec(d, title_key()) {
            Option::Some(v) => !(v is Text),
            Option::None => true,
        },
    ensures
        title_spec(d) == Result::<Option<Seq<char>>, OutlineError>::Ok(Option::None::<Seq<char>>),
{
}

/// Law: a title byte string beginning with the UTF-16BE marker whose
/// remainder is a well-formed UTF-16BE sequence decodes to exactly the
/// UTF-16 decoding of the bytes after the marker.
pub proof fn lemma_title_utf16_exact(b: Seq<u8>, cs: Seq<char>)
    requires
        has_utf16_marker(b),
        b.skip(2).len() % 2 == 0,
        utf16_decode(be_units(b.skip(2))) == Option::Some(cs),
    ensures
        decode_title_spec(b) == Result::<Seq<char>, OutlineError>::Ok(cs),
{
}

/// Law: a title byte string not beginning with the marker never fails to
/// decode: every byte string yields some text.
pub proof fn lemma_title_no_marker_total(b: Seq<u8>)
    requires
        !has_utf16_marker(b),
    ensures
        decode_title_spec(b) == Result::<Seq<char>, OutlineError>::Ok(lossy_decode(b)),
{
}

/// Law: a title of zero bytes after the UTF-16BE marker decodes to the empty
/// string, not an error.
pub proof fn lemma_title_empty_utf16(b: Seq<u8>)
    requires
        has_utf16_marker(b),
        b.len() == 2,
    ensures
        decode_title_spec(b) == Result::<Seq<char>, OutlineError>::Ok(Seq::<char>::empty()),
{
    assert(b.skip(2) =~= Seq::<u8>::empty());
    assert(be_units(b.skip(2)) =~= Seq::<u16>::empty());
}

} // verus!
