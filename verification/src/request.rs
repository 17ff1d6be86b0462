//! A model of the inbound HTTP request as the pipeline reads it: a list of
//! header fields (name and raw bytes) and an opaque body. The surrounding
//! transport converts its own request type into this one at the pipeline
//! boundary.

use vstd::prelude::*;
use vstd::string::StrSliceExecFns;
use vstd::utf8::{decode_utf8, valid_utf8};

verus! {

broadcast use vstd::string::group_string_axioms;

/// One header field of a request: a name and the raw bytes of its value.
#[derive(Clone, Debug, PartialEq)]
pub struct HeaderField {
    /// The field name, compared case-insensitively.
    pub name: String,
    /// The raw bytes of the field value, as they stood on the wire.
    pub value: Vec<u8>,
}

/// An inbound request: its header fields, in order, and its body.
#[derive(Clone, Debug, PartialEq)]
pub struct Request {
    /// The header fields, in the order they arrived.
    pub headers: Vec<HeaderField>,
    /// The raw request body.
    pub body: Vec<u8>,
}

/// A byte that may stand in a header value and still be read back as text:
/// a visible ASCII character, space, or horizontal tab.
pub open spec fn header_text_byte(b: u8) -> bool {
    (32 <= b && b < 127) || b == 9
}

/// Whether a header value's bytes can be interpreted as text.
pub open spec fn bytes_are_text(bs: Seq<u8>) -> bool {
    forall|i: int| 0 <= i < bs.len() ==> header_text_byte(#[trigger] bs[i])
}

/// A character that survives the round trip through a header value: a
/// visible ASCII character, space, or horizontal tab.
pub open spec fn header_safe_char(c: char) -> bool {
    (' ' <= c && c <= '~') || c == '\t'
}

/// Whether every character of `s` is header-safe.
pub open spec fn header_safe(s: Seq<char>) -> bool {
    forall|i: int| 0 <= i < s.len() ==> header_safe_char(#[trigger] s[i])
}

/// The text read out of a header value's bytes, one character per byte.
/// Meaningful when [`bytes_are_text`] holds of the bytes.
pub open spec fn decoded_chars(bs: Seq<u8>) -> Seq<char> {
    bs.map(|i: int, b: u8| b as char)
}

/// The bytes a piece of text occupies in a header value, one byte per
/// character. Meaningful when [`header_safe`] holds of the text.
pub open spec fn encoded_bytes(s: Seq<char>) -> Seq<u8> {
    s.map(|i: int, c: char| (c as u32) as u8)
}

/// The lower-cased character code used for case-insensitive field names.
pub open spec fn lower_code(c: char) -> u32 {
    if 65 <= (c as u32) && (c as u32) <= 90 {
        ((c as u32) + 32) as u32
    } else {
        (c as u32)
    }
}

/// Whether two field names are the same header name, compared
/// ASCII-case-insensitively as HTTP requires.
pub open spec fn header_name_matches(a: Seq<char>, b: Seq<char>) -> bool {
    a.len() == b.len() && forall|i: int|
        0 <= i < a.len() ==> lower_code(#[trigger] a[i]) == lower_code(b[i])
}

/// The value bytes of the first field named `name`, if any.
pub open spec fn spec_find_header(fields: Seq<HeaderField>, name: Seq<char>) -> Option<Seq<u8>>
    decreases fields.len(),
{
    if fields.len() == 0 {
        None
    } else if header_name_matches(fields[0].name@, name) {
        Some(fields[0].value@)
    } else {
        spec_find_header(fields.drop_first(), name)
    }
}

/// Compare two field names ASCII-case-insensitively.
fn names_match(a: &str, b: &str) -> (r: bool)
    ensures
        r == header_name_matches(a@, b@),
{
    let alen = a.unicode_len();
    let blen = b.unicode_len();
    if alen != blen {
        return false;
    }
    let mut i: usize = 0;
    while i < alen
        invariant
            0 <= i <= alen,
            alen == a@.len(),
            blen == b@.len(),
            alen == blen,
            forall|j: int| 0 <= j < i ==> lower_code(#[trigger] a@[j]) == lower_code(b@[j]),
        decreases alen - i,
    {
        let ca = a.get_char(i) as u32;
        let cb = b.get_char(i) as u32;
        let la = if 65 <= ca && ca <= 90 { ca + 32 } else { ca };
        let lb = if 65 <= cb && cb <= 90 { cb + 32 } else { cb };
        if la != lb {
            return false;
        }
        i = i + 1;
    }
    true
}

/// Look up the first header field named `name`, case-insensitively, and hand
/// back its raw value bytes.
pub fn find_header<'a>(fields: &'a Vec<HeaderField>, name: &str) -> (r: Option<&'a Vec<u8>>)
    ensures
        match spec_find_header(fields@, name@) {
            Some(v) => r matches Some(rv) && rv@ == v,
            None => r is None,
        },
{
    let mut i: usize = 0;
    proof {
        assert(fields@.skip(0) =~= fields@);
    }
    while i < fields.len()
        invariant
            0 <= i <= fields@.len(),
            spec_find_header(fields@, name@) == spec_find_header(fields@.skip(i as int), name@),
        decreases fields@.len() - i,
    {
        let field = &fields[i];
        if names_match(field.name.as_str(), name) {
            assert(fields@.skip(i as int)[0] == fields@[i as int]);
            return Some(&fields[i].value);
        }
        proof {
            assert(fields@.skip(i as int)[0] == fields@[i as int]);
            assert(fields@.skip(i as int).drop_first() =~= fields@.skip(i as int + 1));
        }
        i = i + 1;
    }
    proof {
        assert(fields@.skip(i as int).len() == 0);
    }
    None
}

impl Request {
    /// The raw value bytes of the first header field named `name`, if any.
    pub fn header<'a>(&'a self, name: &str) -> (r: Option<&'a Vec<u8>>)
        ensures
            match spec_find_header(self.headers@, name@) {
                Some(v) => r matches Some(rv) && rv@ == v,
                None => r is None,
            },
    {
        find_header(&self.headers, name)
    }
}

/// Relies on `String::from_utf8`: it returns the string decoded from the
/// bytes exactly when they are valid UTF-8, and fails otherwise.
#[verifier::external_body]
fn string_from_utf8(v: &Vec<u8>) -> (r: Option<String>)
    ensures
        r is Some <==> valid_utf8(v@),
        r matches Some(s) ==> s@ == decode_utf8(v@),
{
    String::from_utf8(v.clone()).ok()
}

/// Bytes that are header-value text are one-byte UTF-8, decoding to one
/// character per byte.
pub proof fn lemma_text_bytes_decode(bs: Seq<u8>)
    requires
        bytes_are_text(bs),
    ensures
        valid_utf8(bs),
        decode_utf8(bs) == decoded_chars(bs),
{
    let chars = decoded_chars(bs);
    assert forall|i: int| 0 <= i < chars.len() implies '\0' <= #[trigger] chars[i] <= '\u{7f}' by {
        assert(header_text_byte(bs[i]));
        vstd::utf8::char_u32_cast(chars[i], bs[i] as u32);
    }
    assert(vstd::utf8::is_ascii_chars(chars));
    vstd::utf8::is_ascii_chars_encode_utf8(chars);
    assert(vstd::utf8::encode_utf8(chars) =~= bs) by {
        assert forall|i: int| 0 <= i < bs.len() implies vstd::utf8::encode_utf8(chars)[i] == bs[i] by {
            assert(chars[i] == bs[i] as char);
            vstd::utf8::char_u32_cast(chars[i], bs[i] as u32);
            assert(chars[i] as u32 == bs[i] as u32);
        }
    }
    vstd::utf8::encode_utf8_valid_utf8(chars);
    vstd::utf8::encode_utf8_decode_utf8(chars);
}

/// Read a header value's bytes back as text: succeeds exactly when every
/// byte is a visible ASCII character, space, or tab, and then yields one
/// character per byte.
pub fn header_value_text(value: &Vec<u8>) -> (r: Option<String>)
    ensures
        r is Some <==> bytes_are_text(value@),
        r matches Some(s) ==> s@ == decoded_chars(value@) && header_safe(s@),
{
    let mut i: usize = 0;
    while i < value.len()
        invariant
            0 <= i <= value@.len(),
            forall|j: int| 0 <= j < i ==> header_text_byte(#[trigger] value@[j]),
        decreases value@.len() - i,
    {
        let b = value[i];
        if !((32 <= b && b < 127) || b == 9) {
            assert(!header_text_byte(value@[i as int]));
            return None;
        }
        i = i + 1;
    }
    assert(bytes_are_text(value@));
    proof {
        lemma_text_bytes_decode(value@);
    }
    let s = string_from_utf8(value);
    match s {
        Some(text) => {
            proof {
                assert forall|i: int| 0 <= i < text@.len() implies header_safe_char(
                    #[trigger] text@[i],
                ) by {
                    assert(text@[i] == value@[i] as char);
                    vstd::utf8::char_u32_cast(text@[i], value@[i] as u32);
                }
            }
            Some(text)
        },
        None => None,
    }
}

} // verus!
