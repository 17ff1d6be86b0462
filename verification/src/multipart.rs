//! Helper functions for multipart support: finding the multipart boundary
//! marker, if any, in a request's content-type header.

use crate::request::{bytes_are_text, decoded_chars, spec_find_header, HeaderField};
use vstd::prelude::*;

verus! {

broadcast use vstd::string::group_string_axioms;

/// What a media type says as far as the boundary decision reads it: its
/// top-level type, its subtype, and its `boundary` parameter, if any.
#[derive(Clone, Debug, PartialEq)]
pub struct MediaTypeParts {
    /// The top-level type, lower-cased (`multipart` in `multipart/form-data`).
    pub top: String,
    /// The subtype, lower-cased (`form-data` in `multipart/form-data`).
    pub sub: String,
    /// The value of the `boundary` parameter, if the media type has one.
    pub boundary: Option<String>,
}

/// What the mime crate's parser makes of a piece of text: nothing where the
/// text is no media type, else the top-level type, the subtype and the
/// `boundary` parameter. The parse is a function of the text alone; which
/// texts parse, and to what, is pinned only by the parser itself.
pub uninterp spec fn parsed_media_type(s: Seq<char>) -> Option<
    (Seq<char>, Seq<char>, Option<Seq<char>>),
>;

/// Whether an in-memory [`MediaTypeParts`] value carries exactly a parse
/// result: the same top-level type, subtype, and boundary parameter.
pub open spec fn media_parts_are(
    p: MediaTypeParts,
    t: (Seq<char>, Seq<char>, Option<Seq<char>>),
) -> bool {
    p.top@ == t.0 && p.sub@ == t.1 && (match (p.boundary, t.2) {
        (Some(pb), Some(tb)) => pb@ == tb,
        (None, None) => true,
        _ => false,
    })
}

/// Relies on the mime crate's media-type parser (`str::parse::<mime::Mime>`
/// with `type_`, `subtype` and `get_param`): the call hands back
/// [`parsed_media_type`] of the text — the parsed top-level type and
/// subtype, lower-cased, and the `boundary` parameter — and nothing where
/// the text does not parse.
#[verifier::external_body]
fn parse_media_type(s: &str) -> (r: Option<MediaTypeParts>)
    ensures
        r is Some <==> parsed_media_type(s@) is Some,
        r matches Some(p) ==> (parsed_media_type(s@) matches Some(t) && media_parts_are(p, t)),
{
    match s.parse::<mime::Mime>() {
        Ok(m) => {
            let boundary = m.get_param(mime::BOUNDARY).map(|v| v.as_str().to_string());
            Some(
                MediaTypeParts {
                    top: m.type_().as_str().to_string(),
                    sub: m.subtype().as_str().to_string(),
                    boundary,
                },
            )
        },
        Err(_) => None,
    }
}

/// The boundary decision itself: a media type carries a usable multipart
/// boundary exactly when it is `multipart/form-data` and names a
/// `boundary` parameter.
pub fn multipart_form_boundary(parts: MediaTypeParts) -> (r: Option<String>)
    ensures
        match r {
            Some(b) => parts.top@ == "multipart"@ && parts.sub@ == "form-data"@ && (parts.boundary
                matches Some(pb) && pb@ == b@),
            None => !(parts.top@ == "multipart"@ && parts.sub@ == "form-data"@
                && parts.boundary is Some),
        },
{
    if parts.top.eq(&"multipart".to_owned()) && parts.sub.eq(&"form-data".to_owned()) {
        parts.boundary
    } else {
        None
    }
}

/// The multipart boundary marker a list of header fields carries: the
/// `boundary` parameter of the first `Content-Type` field's value, where
/// that value is text parsing as `multipart/form-data` with such a
/// parameter, and nothing otherwise.
pub open spec fn spec_boundary(headers: Seq<HeaderField>) -> Option<Seq<char>> {
    match spec_find_header(headers, "content-type"@) {
        Some(bytes) => if bytes_are_text(bytes) {
            match parsed_media_type(decoded_chars(bytes)) {
                Some(t) => if t.0 == "multipart"@ && t.1 == "form-data"@ {
                    t.2
                } else {
                    None
                },
                None => None,
            }
        } else {
            None
        },
        None => None,
    }
}

/// Utility function to get the multipart boundary marker (if any) from a
/// request's header fields: reads the first `Content-Type` field as text,
/// parses it as a media type, and applies [`multipart_form_boundary`].
pub fn boundary(headers: &Vec<HeaderField>) -> (r: Option<String>)
    ensures
        match (r, spec_boundary(headers@)) {
            (Some(b), Some(sb)) => b@ == sb,
            (None, None) => true,
            _ => false,
        },
{
    match crate::request::find_header(headers, "content-type") {
        Some(value) => match crate::request::header_value_text(value) {
            Some(text) => match parse_media_type(text.as_str()) {
                Some(parts) => {
                    let ghost gparts = parts;
                    let r = multipart_form_boundary(parts);
                    proof {
                        let t = parsed_media_type(text@).unwrap();
                        assert(media_parts_are(gparts, t));
                    }
                    r
                },
                None => None,
            },
            None => None,
        },
        None => None,
    }
}

} // verus!
