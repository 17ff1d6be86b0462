//! The trace-identifier header codec: the two-way mapping between the
//! `X-Span-ID` header value and the in-memory identifier, and the
//! extraction-or-generation step the context-attaching stage runs on each
//! inbound request.

use crate::request::{
    bytes_are_text, decoded_chars, encoded_bytes, header_safe, header_safe_char,
    header_value_text, spec_find_header, Request,
};
use vstd::prelude::*;
use vstd::string::StrSliceExecFns;

verus! {

broadcast use vstd::string::group_string_axioms;

/// Header `X-Span-ID`: tracks a request through a chain of microservices.
pub const X_SPAN_ID: &'static str = "X-Span-ID";

/// Error for a header value that cannot be interpreted as text.
#[derive(Clone, Copy, Debug, PartialEq, Eq, Structural)]
pub struct InvalidHeader;

/// Wrapper for a string being used as an `X-Span-ID`.
#[derive(Clone, Debug, PartialEq)]
pub struct XSpanId(pub String);

/// A character of a freshly generated identifier: a lowercase hexadecimal
/// digit or a hyphen.
pub open spec fn generated_id_char(c: char) -> bool {
    ('0' <= c && c <= '9') || ('a' <= c && c <= 'f') || c == '-'
}

/// The shape of a freshly generated identifier: the 36-character hyphenated
/// form of a random 128-bit identifier.
pub open spec fn is_generated_id(s: Seq<char>) -> bool {
    s.len() == 36 && forall|i: int| 0 <= i < s.len() ==> generated_id_char(#[trigger] s[i])
}

/// A generated identifier is non-empty and fits in a header value.
pub proof fn lemma_generated_id_well_formed(s: Seq<char>)
    requires
        is_generated_id(s),
    ensures
        s.len() > 0,
        header_safe(s),
{
    assert forall|i: int| 0 <= i < s.len() implies header_safe_char(#[trigger] s[i]) by {
        assert(generated_id_char(s[i]));
    }
}

/// Relies on `uuid::Uuid::new_v4` and the hyphenated `Display` form the
/// uuid crate documents: 36 characters, lowercase hexadecimal digits in
/// five hyphen-separated groups. Which identifier comes back is random;
/// nothing beyond its shape is assumed.
#[verifier::external_body]
fn generate_identifier() -> (r: String)
    ensures
        is_generated_id(r@),
{
    uuid::Uuid::new_v4().to_string()
}

/// How an identifier in the output of the context-attaching step relates to
/// the inbound request: a well-formed `X-Span-ID` header is reused exactly;
/// an absent or malformed one is replaced by a freshly generated identifier.
pub open spec fn span_id_from(req: Request, id: XSpanId) -> bool {
    match spec_find_header(req.headers@, X_SPAN_ID@) {
        Some(bytes) => if bytes_are_text(bytes) {
            id.0@ == decoded_chars(bytes)
        } else {
            is_generated_id(id.0@)
        },
        None => is_generated_id(id.0@),
    }
}

impl XSpanId {
    /// The canonical name of the trace-identifier header.
    pub fn name() -> (r: &'static str)
        ensures
            r@ == X_SPAN_ID@,
    {
        X_SPAN_ID
    }

    /// Decode an identifier from the raw bytes of a header value. Succeeds
    /// exactly when the bytes can be interpreted as text; an absent header
    /// is not a decode failure but is handled one level up, by generation.
    pub fn decode(value: &Vec<u8>) -> (r: Result<Self, InvalidHeader>)
        ensures
            r is Ok <==> bytes_are_text(value@),
            r matches Ok(id) ==> id.0@ == decoded_chars(value@) && header_safe(id.0@),
    {
        match header_value_text(value) {
            Some(text) => Ok(XSpanId(text)),
            None => Err(InvalidHeader),
        }
    }

    /// Encode the identifier as the raw bytes of a header value: exactly its
    /// string form, one byte per character. Total for every identifier this
    /// system produces, since both generation and decoding yield only
    /// header-safe characters. Identifiers with characters beyond that set
    /// are left out: decoding a header value can only ever return
    /// header-safe text, so such an identifier would not round-trip.
    pub fn encode(&self) -> (r: Vec<u8>)
        requires
            header_safe(self.0@),
        ensures
            r@ == encoded_bytes(self.0@),
            bytes_are_text(r@),
    {
        proof {
            lemma_header_safe_is_ascii(self.0@);
        }
        let r = self.0.as_str().as_bytes_vec();
        proof {
            vstd::utf8::is_ascii_chars_encode_utf8(self.0@);
            assert(r@ =~= encoded_bytes(self.0@));
            assert forall|i: int|
                0 <= i < r@.len() implies crate::request::header_text_byte(#[trigger] r@[i]) by {
                assert(header_safe_char(self.0@[i]));
                assert(r@[i] == (self.0@[i] as u32) as u8);
            }
        }
        r
    }

    /// Extract an `X-Span-ID` from a request header if present and
    /// well-formed, and if not generate a new one.
    pub fn get_or_generate(req: &Request) -> (r: Self)
        ensures
            span_id_from(*req, r),
            header_safe(r.0@),
    {
        match req.header(X_SPAN_ID) {
            Some(value) => match Self::decode(value) {
                Ok(id) => id,
                Err(_) => {
                    let id = XSpanId(generate_identifier());
                    proof {
                        lemma_generated_id_well_formed(id.0@);
                    }
                    id
                },
            },
            None => {
                let id = XSpanId(generate_identifier());
                proof {
                    lemma_generated_id_well_formed(id.0@);
                }
                id
            },
        }
    }
}

impl Default for XSpanId {
    /// A freshly generated identifier.
    fn default() -> (r: Self)
        ensures
            is_generated_id(r.0@),
    {
        XSpanId(generate_identifier())
    }
}

/// A struct to allow homogeneous conversion between header values and the
/// scalar and composite types that travel in them. Holds the in-memory
/// value; the conversions live on the instantiations.
#[derive(Clone, Debug, PartialEq)]
pub struct IntoHeaderValue<T>(pub T);

/// Write header-safe text as the raw bytes of a header value, one byte per
/// character.
fn text_to_value_bytes(s: &str) -> (r: Vec<u8>)
    requires
        header_safe(s@),
    ensures
        r@ == encoded_bytes(s@),
        bytes_are_text(r@),
{
    proof {
        lemma_header_safe_is_ascii(s@);
    }
    let r = s.as_bytes_vec();
    proof {
        vstd::utf8::is_ascii_chars_encode_utf8(s@);
        assert(r@ =~= encoded_bytes(s@));
        assert forall|i: int|
            0 <= i < r@.len() implies crate::request::header_text_byte(#[trigger] r@[i]) by {
            assert(header_safe_char(s@[i]));
            assert(r@[i] == (s@[i] as u32) as u8);
        }
    }
    r
}

impl IntoHeaderValue<String> {
    /// Read a header value as a string: exactly the value's text.
    pub fn decode(value: &Vec<u8>) -> (r: Result<Self, InvalidHeader>)
        ensures
            r is Ok <==> bytes_are_text(value@),
            r matches Ok(v) ==> v.0@ == decoded_chars(value@),
    {
        match header_value_text(value) {
            Some(text) => Ok(IntoHeaderValue(text)),
            None => Err(InvalidHeader),
        }
    }

    /// Write the string as a header value, one byte per character. Strings
    /// with characters beyond the header-safe set are left out: decoding a
    /// header value can only ever return header-safe text, so such a string
    /// would not round-trip.
    pub fn encode(&self) -> (r: Vec<u8>)
        requires
            header_safe(self.0@),
        ensures
            r@ == encoded_bytes(self.0@),
            bytes_are_text(r@),
    {
        text_to_value_bytes(self.0.as_str())
    }
}

/// A blank character at the edge of a header list item: space or tab.
pub open spec fn is_blank(c: char) -> bool {
    c == ' ' || c == '\t'
}

/// `s` without its leading blanks.
pub open spec fn trim_front(s: Seq<char>) -> Seq<char>
    decreases s.len(),
{
    if s.len() > 0 && is_blank(s[0]) {
        trim_front(s.drop_first())
    } else {
        s
    }
}

/// `s` without its trailing blanks.
pub open spec fn trim_back(s: Seq<char>) -> Seq<char>
    decreases s.len(),
{
    if s.len() > 0 && is_blank(s.last()) {
        trim_back(s.drop_last())
    } else {
        s
    }
}

/// `s` without its leading and trailing blanks.
pub open spec fn trimmed(s: Seq<char>) -> Seq<char> {
    trim_back(trim_front(s))
}

/// The list items one comma-separated segment contributes: its trimmed
/// text, unless nothing is left of it.
pub open spec fn emitted(segment: Seq<char>) -> Seq<Seq<char>> {
    if trimmed(segment).len() > 0 {
        seq![trimmed(segment)]
    } else {
        Seq::empty()
    }
}

/// A left-to-right scan of a comma-separated header value: the items of
/// the segments already closed by a comma, and the still-open last segment.
pub open spec fn csv_scan(s: Seq<char>) -> (Seq<Seq<char>>, Seq<char>)
    decreases s.len(),
{
    if s.len() == 0 {
        (Seq::empty(), Seq::empty())
    } else {
        let prev = csv_scan(s.drop_last());
        if s.last() == ',' {
            (prev.0 + emitted(prev.1), Seq::empty())
        } else {
            (prev.0, prev.1.push(s.last()))
        }
    }
}

/// The items of a comma-separated header value: each comma-separated
/// segment, trimmed of blanks at both edges, with emptied segments dropped.
pub open spec fn csv_items(s: Seq<char>) -> Seq<Seq<char>> {
    csv_scan(s).0 + emitted(csv_scan(s).1)
}

proof fn lemma_trim_front_skip(s: Seq<char>, a: int)
    requires
        0 <= a <= s.len(),
        forall|j: int| 0 <= j < a ==> is_blank(#[trigger] s[j]),
        a == s.len() || !is_blank(s[a]),
    ensures
        trim_front(s) == s.skip(a),
    decreases a,
{
    if a == 0 {
        assert(s.skip(0) =~= s);
    } else {
        assert(is_blank(s[0]));
        lemma_trim_front_skip(s.drop_first(), a - 1);
        assert(s.drop_first().skip(a - 1) =~= s.skip(a));
    }
}

proof fn lemma_trim_back_take(s: Seq<char>, b: int)
    requires
        0 <= b <= s.len(),
        forall|j: int| b <= j < s.len() ==> is_blank(#[trigger] s[j]),
        b == 0 || !is_blank(s[b - 1]),
    ensures
        trim_back(s) == s.take(b),
    decreases s.len(),
{
    if b == s.len() {
        if s.len() > 0 && is_blank(s.last()) {
            assert(false);
        }
        assert(s.take(b) =~= s);
    } else {
        assert(is_blank(s.last()));
        lemma_trim_back_take(s.drop_last(), b);
        assert(s.drop_last().take(b) =~= s.take(b));
    }
}

/// Whether the character at `i` is a blank.
fn blank_at(s: &str, i: usize) -> (r: bool)
    requires
        i < s@.len(),
    ensures
        r == is_blank(s@[i as int]),
{
    let c = s.get_char(i);
    c == ' ' || c == '\t'
}

/// Trim blanks from both edges of one list segment.
fn trim_blanks<'a>(s: &'a str) -> (r: &'a str)
    requires
        s.is_ascii(),
    ensures
        r@ == trimmed(s@),
        r.is_ascii(),
{
    let len = s.unicode_len();
    let mut a: usize = 0;
    while a < len && blank_at(s, a)
        invariant
            0 <= a <= len,
            len == s@.len(),
            forall|j: int| 0 <= j < a ==> is_blank(#[trigger] s@[j]),
        decreases len - a,
    {
        a = a + 1;
    }
    if a == len {
        proof {
            lemma_trim_front_skip(s@, a as int);
            assert(s@.skip(len as int).len() == 0);
            assert(trim_back(s@.skip(len as int)) == s@.skip(len as int));
            assert(trimmed(s@) =~= s@.subrange(len as int, len as int));
        }
        return s.substring_ascii(len, len);
    }
    let mut b: usize = len;
    while b > a + 1 && blank_at(s, b - 1)
        invariant
            a < b <= len,
            len == s@.len(),
            forall|j: int| b <= j < len ==> is_blank(#[trigger] s@[j]),
        decreases b,
    {
        b = b - 1;
    }
    let r = s.substring_ascii(a, b);
    proof {
        lemma_trim_front_skip(s@, a as int);
        let rest = s@.skip(a as int);
        assert(!is_blank(s@[a as int]));
        assert forall|j: int| b - a <= j < rest.len() implies is_blank(#[trigger] rest[j]) by {
            assert(rest[j] == s@[j + a]);
        }
        assert(rest[(b - a) - 1] == s@[b as int - 1]);
        lemma_trim_back_take(rest, b as int - a as int);
        assert(rest.take(b as int - a as int) =~= s@.subrange(a as int, b as int));
    }
    r
}

/// Split an ASCII header value into its comma-separated items, trimming
/// blanks and dropping segments that trim to nothing.
fn split_csv(s: &str) -> (r: Vec<String>)
    requires
        s.is_ascii(),
    ensures
        r@.map_values(|t: String| t@) == csv_items(s@),
{
    let len = s.unicode_len();
    let mut out: Vec<String> = Vec::new();
    let mut start: usize = 0;
    let mut i: usize = 0;
    proof {
        assert(s@.take(0) =~= Seq::<char>::empty());
        assert(s@.subrange(0, 0) =~= Seq::<char>::empty());
        assert(out@.map_values(|t: String| t@) =~= Seq::<Seq<char>>::empty());
    }
    while i < len
        invariant
            0 <= start <= i <= len,
            len == s@.len(),
            s.is_ascii(),
            out@.map_values(|t: String| t@) == csv_scan(s@.take(i as int)).0,
            s@.subrange(start as int, i as int) == csv_scan(s@.take(i as int)).1,
        decreases len - i,
    {
        let c = s.get_char(i);
        proof {
            assert(s@.take(i as int + 1).drop_last() =~= s@.take(i as int));
            assert(s@.take(i as int + 1).last() == s@[i as int]);
        }
        if c == ',' {
            let segment = s.substring_ascii(start, i);
            let t = trim_blanks(segment);
            proof {
                assert(segment@ == csv_scan(s@.take(i as int)).1);
            }
            if t.unicode_len() > 0 {
                out.push(t.to_owned());
                proof {
                    assert(out@.map_values(|t2: String| t2@) =~= csv_scan(
                        s@.take(i as int + 1),
                    ).0);
                }
            } else {
                proof {
                    assert(out@.map_values(|t2: String| t2@) =~= csv_scan(
                        s@.take(i as int + 1),
                    ).0);
                }
            }
            start = i + 1;
            proof {
                assert(s@.subrange(i as int + 1, i as int + 1) =~= csv_scan(
                    s@.take(i as int + 1),
                ).1);
            }
        } else {
            proof {
                assert(s@.subrange(start as int, i as int + 1) =~= s@.subrange(
                    start as int,
                    i as int,
                ).push(s@[i as int]));
            }
        }
        i = i + 1;
    }
    proof {
        assert(s@.take(len as int) =~= s@);
    }
    let segment = s.substring_ascii(start, len);
    let t = trim_blanks(segment);
    if t.unicode_len() > 0 {
        out.push(t.to_owned());
        proof {
            assert(out@.map_values(|t2: String| t2@) =~= csv_items(s@));
        }
    } else {
        proof {
            assert(out@.map_values(|t2: String| t2@) =~= csv_items(s@));
        }
    }
    out
}

/// What one item contributes to the joined header value: `", "` before
/// every item but the first, then the item.
pub open spec fn joined(items: Seq<Seq<char>>) -> Seq<char>
    decreases items.len(),
{
    if items.len() == 0 {
        Seq::empty()
    } else if items.len() == 1 {
        items[0]
    } else {
        joined(items.drop_last()) + seq![',', ' '] + items.last()
    }
}

impl IntoHeaderValue<Vec<String>> {
    /// Read a comma-separated header value as a list of strings: each
    /// comma-separated segment trimmed of blanks, empties dropped. Succeeds
    /// exactly when the value's bytes can be interpreted as text.
    pub fn decode(value: &Vec<u8>) -> (r: Result<Self, InvalidHeader>)
        ensures
            r is Ok <==> bytes_are_text(value@),
            r matches Ok(v) ==> v.0@.map_values(|t: String| t@) == csv_items(
                decoded_chars(value@),
            ),
    {
        let text = match header_value_text(value) {
            Some(t) => t,
            None => {
                return Err(InvalidHeader);
            },
        };
        proof {
            lemma_header_safe_is_ascii(text@);
        }
        let items = split_csv(text.as_str());
        Ok(IntoHeaderValue(items))
    }

    /// Write the list as one comma-separated header value, `", "` between
    /// items. Total when every item is made of header-safe characters;
    /// other items are left out, as for the string form.
    pub fn encode(&self) -> (r: Vec<u8>)
        requires
            forall|i: int| 0 <= i < self.0@.len() ==> header_safe(#[trigger] self.0@[i]@),
        ensures
            r@ == encoded_bytes(joined(self.0@.map_values(|t: String| t@))),
            bytes_are_text(r@),
    {
        let ghost views = self.0@.map_values(|t: String| t@);
        let mut text = String::new();
        let mut i: usize = 0;
        proof {
            reveal_strlit(", ");
            assert(", "@ =~= seq![',', ' ']);
            assert(views.take(0) =~= Seq::<Seq<char>>::empty());
        }
        while i < self.0.len()
            invariant
                0 <= i <= self.0@.len(),
                views == self.0@.map_values(|t: String| t@),
                ", "@ == seq![',', ' '],
                forall|j: int| 0 <= j < self.0@.len() ==> header_safe(#[trigger] self.0@[j]@),
                text@ == joined(views.take(i as int)),
                header_safe(text@),
            decreases self.0@.len() - i,
        {
            proof {
                assert(views.take(i as int + 1).drop_last() =~= views.take(i as int));
                assert(views.take(i as int + 1).last() == self.0@[i as int]@);
            }
            if i > 0 {
                text.append(", ");
            }
            text.append(self.0[i].as_str());
            proof {
                assert(header_safe(text@)) by {
                    assert forall|j: int|
                        0 <= j < text@.len() implies header_safe_char(#[trigger] text@[j]) by {
                        assert(header_safe(self.0@[i as int]@));
                    }
                }
            }
            i = i + 1;
        }
        proof {
            assert(views.take(i as int) =~= views);
        }
        text_to_value_bytes(text.as_str())
    }
}

/// Header-safe text is ASCII.
proof fn lemma_header_safe_is_ascii(s: Seq<char>)
    requires
        header_safe(s),
    ensures
        vstd::utf8::is_ascii_chars(s),
{
    assert forall|i: int| 0 <= i < s.len() implies '\0' <= #[trigger] s[i] <= '\u{7f}' by {
        assert(header_safe_char(s[i]));
    }
}

/// A decimal digit.
pub open spec fn is_dec_digit(c: char) -> bool {
    '0' <= c && c <= '9'
}

/// The value of one decimal digit character.
pub open spec fn digit_val(c: char) -> nat {
    ((c as u32) - 48) as nat
}

/// Whether `s` is a non-empty run of decimal digits.
pub open spec fn dec_digits(s: Seq<char>) -> bool {
    s.len() > 0 && forall|i: int| 0 <= i < s.len() ==> is_dec_digit(#[trigger] s[i])
}

/// The number a run of decimal digits denotes.
pub open spec fn dec_value(s: Seq<char>) -> nat
    decreases s.len(),
{
    if s.len() == 0 {
        0
    } else {
        dec_value(s.drop_last()) * 10 + digit_val(s.last())
    }
}

/// The digits of a number written without a sign: everything after one
/// optional leading `+`.
pub open spec fn unsigned_body(s: Seq<char>) -> Seq<char> {
    if s.len() > 0 && s[0] == '+' {
        s.drop_first()
    } else {
        s
    }
}

/// Whether text denotes a number an unsigned 64-bit integer can hold: an
/// optional `+`, then only digits, within range.
pub open spec fn u64_parsable(s: Seq<char>) -> bool {
    dec_digits(unsigned_body(s)) && dec_value(unsigned_body(s)) <= u64::MAX
}

/// A longer run of digits denotes no smaller a number.
proof fn lemma_dec_value_prefix(s: Seq<char>, m: int)
    requires
        0 <= m <= s.len(),
    ensures
        dec_value(s) >= dec_value(s.take(m)),
    decreases s.len() - m,
{
    if m == s.len() {
        assert(s.take(m) =~= s);
    } else {
        lemma_dec_value_prefix(s, m + 1);
        assert(s.take(m + 1).drop_last() =~= s.take(m));
        assert(dec_value(s.take(m + 1)) == dec_value(s.take(m)) * 10 + digit_val(s.take(m + 1).last()));
    }
}

/// Parse a bare, non-empty run of decimal digits: succeeds exactly on the
/// runs whose number an unsigned 64-bit integer can hold.
fn parse_dec_digits(s: &str) -> (r: Option<u64>)
    ensures
        r is Some <==> dec_digits(s@) && dec_value(s@) <= u64::MAX,
        r matches Some(v) ==> v as nat == dec_value(s@),
{
    let len = s.unicode_len();
    if len == 0 {
        return None;
    }
    let mut acc: u64 = 0;
    let mut i: usize = 0;
    proof {
        assert(s@.take(0) =~= Seq::<char>::empty());
    }
    while i < len
        invariant
            0 <= i <= len,
            len == s@.len(),
            forall|j: int| 0 <= j < i ==> is_dec_digit(#[trigger] s@[j]),
            acc as nat == dec_value(s@.take(i as int)),
        decreases len - i,
    {
        let c = s.get_char(i);
        if !('0' <= c && c <= '9') {
            proof {
                assert(!dec_digits(s@));
            }
            return None;
        }
        let d = ((c as u32) - 48) as u64;
        proof {
            assert(s@.take(i as int + 1).drop_last() =~= s@.take(i as int));
            assert(s@.take(i as int + 1).last() == s@[i as int]);
        }
        let next = match acc.checked_mul(10) {
            Some(shifted) => match shifted.checked_add(d) {
                Some(total) => total,
                None => {
                    proof {
                        assert(dec_value(s@.take(i as int + 1)) > u64::MAX);
                        lemma_dec_value_prefix(s@, i as int + 1);
                    }
                    return None;
                },
            },
            None => {
                proof {
                    assert(dec_value(s@.take(i as int + 1)) >= acc as nat * 10) by {
                        assert(dec_value(s@.take(i as int + 1)) == acc as nat * 10 + digit_val(
                            s@[i as int],
                        ));
                    }
                    lemma_dec_value_prefix(s@, i as int + 1);
                }
                return None;
            },
        };
        acc = next;
        i = i + 1;
    }
    proof {
        assert(s@.take(len as int) =~= s@);
    }
    Some(acc)
}

/// Parse a run of decimal digits, with an optional leading `+`, as an
/// unsigned 64-bit integer: succeeds exactly on the texts such an integer
/// can hold, and then yields the number the digits denote.
fn parse_u64_digits(s: &str) -> (r: Option<u64>)
    requires
        s.is_ascii(),
    ensures
        r is Some <==> u64_parsable(s@),
        r matches Some(v) ==> v as nat == dec_value(unsigned_body(s@)),
{
    let len = s.unicode_len();
    if len > 0 && s.get_char(0) == '+' {
        let rest = s.substring_ascii(1, len);
        proof {
            assert(rest@ =~= unsigned_body(s@));
        }
        parse_dec_digits(rest)
    } else {
        proof {
            assert(unsigned_body(s@) == s@);
        }
        parse_dec_digits(s)
    }
}

/// Write an unsigned 64-bit integer as its run of decimal digits, most
/// significant first, with no sign and no leading zero.
fn u64_digits(v: u64) -> (r: Vec<u8>)
    ensures
        r@.len() > 0,
        bytes_are_text(r@),
        dec_digits(decoded_chars(r@)),
        dec_value(decoded_chars(r@)) == v as nat,
        v > 0 ==> decoded_chars(r@)[0] != '0',
    decreases v,
{
    if v < 10 {
        let r: Vec<u8> = vec![48 + v as u8];
        proof {
            assert(decoded_chars(r@) =~= seq![(48 + v as u8) as char]);
            assert(decoded_chars(r@).drop_last() =~= Seq::<char>::empty());
            assert(((48 + v as u8) as char) as u32 == 48 + v);
            assert(digit_val((48 + v as u8) as char) == v as nat);
            assert(is_dec_digit((48 + v as u8) as char));
            assert(decoded_chars(r@).last() == (48 + v as u8) as char);
            assert(dec_value(decoded_chars(r@)) == dec_value(decoded_chars(r@).drop_last()) * 10
                + digit_val(decoded_chars(r@).last()));
            assert(dec_value(decoded_chars(r@).drop_last()) == 0);
        }
        r
    } else {
        let mut r = u64_digits(v / 10);
        let ghost prefix = decoded_chars(r@);
        let digit: u8 = 48 + (v % 10) as u8;
        r.push(digit);
        proof {
            assert(decoded_chars(r@).drop_last() =~= prefix);
            assert(decoded_chars(r@).last() == digit as char);
            assert((digit as char) as u32 == digit as u32);
            assert(digit_val(digit as char) == (v % 10) as nat);
            assert(is_dec_digit(digit as char));
            assert(dec_value(decoded_chars(r@)) == dec_value(prefix) * 10 + (v % 10) as nat);
            assert((v / 10) as nat * 10 + (v % 10) as nat == v as nat);
            assert forall|j: int|
                0 <= j < decoded_chars(r@).len() implies is_dec_digit(
                #[trigger] decoded_chars(r@)[j],
            ) by {
                if j < prefix.len() {
                    assert(decoded_chars(r@)[j] == prefix[j]);
                    assert(is_dec_digit(prefix[j]));
                }
            }
            assert(decoded_chars(r@)[0] == prefix[0]);
        }
        r
    }
}

impl IntoHeaderValue<u64> {
    /// Read a header value as an unsigned 64-bit integer: the value's text
    /// parsed as decimal digits with an optional leading `+`. Fails on a
    /// value that is not text, not such digits, or out of range.
    pub fn decode(value: &Vec<u8>) -> (r: Result<Self, InvalidHeader>)
        ensures
            r is Ok <==> bytes_are_text(value@) && u64_parsable(decoded_chars(value@)),
            r matches Ok(v) ==> v.0 as nat == dec_value(unsigned_body(decoded_chars(value@))),
    {
        let text = match header_value_text(value) {
            Some(t) => t,
            None => {
                return Err(InvalidHeader);
            },
        };
        proof {
            lemma_header_safe_is_ascii(text@);
        }
        match parse_u64_digits(text.as_str()) {
            Some(v) => Ok(IntoHeaderValue(v)),
            None => Err(InvalidHeader),
        }
    }

    /// Write the integer as a header value: its decimal digits, most
    /// significant first, with no leading zero.
    pub fn encode(&self) -> (r: Vec<u8>)
        ensures
            bytes_are_text(r@),
            dec_digits(decoded_chars(r@)),
            dec_value(decoded_chars(r@)) == self.0 as nat,
            self.0 > 0 ==> decoded_chars(r@)[0] != '0',
    {
        u64_digits(self.0)
    }
}

/// Writing an unsigned 64-bit integer as a header value and reading the
/// value back yields the original number.
pub proof fn lemma_u64_round_trip(bytes: Seq<u8>, v: u64)
    requires
        bytes_are_text(bytes),
        dec_digits(decoded_chars(bytes)),
        dec_value(decoded_chars(bytes)) == v as nat,
    ensures
        u64_parsable(decoded_chars(bytes)),
        dec_value(unsigned_body(decoded_chars(bytes))) == v as nat,
{
    let chars = decoded_chars(bytes);
    assert(is_dec_digit(chars[0]));
    assert(unsigned_body(chars) == chars);
}

/// An item the list codec can round-trip: non-empty, no blank at either
/// edge, and no comma anywhere. Splitting cannot undo a join of any other
/// item: a comma inside an item splits it, and an edge blank is trimmed.
pub open spec fn csv_item(s: Seq<char>) -> bool {
    s.len() > 0 && !is_blank(s[0]) && !is_blank(s.last()) && forall|i: int|
        0 <= i < s.len() ==> #[trigger] s[i] != ','
}

/// Scanning past comma-free text only grows the open segment.
proof fn lemma_csv_scan_no_comma(s: Seq<char>, t: Seq<char>)
    requires
        forall|i: int| 0 <= i < t.len() ==> #[trigger] t[i] != ',',
    ensures
        csv_scan(s + t).0 == csv_scan(s).0,
        csv_scan(s + t).1 == csv_scan(s).1 + t,
    decreases t.len(),
{
    if t.len() == 0 {
        assert(s + t =~= s);
        assert(csv_scan(s).1 + t =~= csv_scan(s).1);
    } else {
        let t0 = t.drop_last();
        assert forall|i: int| 0 <= i < t0.len() implies #[trigger] t0[i] != ',' by {
            assert(t0[i] == t[i]);
        }
        lemma_csv_scan_no_comma(s, t0);
        assert((s + t).drop_last() =~= s + t0);
        assert((s + t).last() == t.last());
        assert(t.last() != ',');
        assert((csv_scan(s).1 + t0).push(t.last()) =~= csv_scan(s).1 + t);
    }
}

/// Trimming leaves a round-trippable item as it stands.
proof fn lemma_trimmed_item(x: Seq<char>)
    requires
        x.len() > 0,
        !is_blank(x[0]),
        !is_blank(x.last()),
    ensures
        trimmed(x) == x,
{
    assert(trim_front(x) == x);
    assert(trim_back(x) == x);
}

/// Trimming strips the joining blank in front of a round-trippable item.
proof fn lemma_trimmed_space_item(x: Seq<char>)
    requires
        x.len() > 0,
        !is_blank(x[0]),
        !is_blank(x.last()),
    ensures
        trimmed(seq![' '] + x) == x,
{
    let sx = seq![' '] + x;
    assert(sx[0] == ' ');
    assert(sx.drop_first() =~= x);
    assert(trim_front(sx) == trim_front(x));
    lemma_trimmed_item(x);
}

/// Joining a list of items and splitting the result yields the original
/// list, provided each item is non-empty, has no blank at either edge, and
/// contains no comma.
pub proof fn lemma_csv_round_trip(items: Seq<Seq<char>>)
    requires
        forall|i: int| 0 <= i < items.len() ==> csv_item(#[trigger] items[i]),
    ensures
        csv_items(joined(items)) == items,
    decreases items.len(),
{
    if items.len() == 0 {
        assert(trimmed(Seq::<char>::empty()) =~= Seq::<char>::empty());
        assert(csv_items(joined(items)) =~= items);
    } else if items.len() == 1 {
        let x = items[0];
        assert(csv_item(x));
        lemma_csv_scan_no_comma(Seq::empty(), x);
        assert(Seq::<char>::empty() + x =~= x);
        assert(csv_scan(x).0 =~= Seq::<Seq<char>>::empty());
        assert(csv_scan(x).1 =~= x);
        lemma_trimmed_item(x);
        assert(emitted(x) =~= seq![x]);
        assert(csv_items(joined(items)) =~= items);
    } else {
        let prev_items = items.drop_last();
        let x = items.last();
        assert(csv_item(x));
        assert forall|i: int| 0 <= i < prev_items.len() implies csv_item(
            #[trigger] prev_items[i],
        ) by {
            assert(prev_items[i] == items[i]);
        }
        lemma_csv_round_trip(prev_items);
        let j0 = joined(prev_items);
        assert(joined(items) == j0 + seq![',', ' '] + x);
        let s1 = j0 + seq![','];
        assert(s1.drop_last() =~= j0);
        assert(s1.last() == ',');
        assert(csv_scan(s1).0 == csv_scan(j0).0 + emitted(csv_scan(j0).1));
        assert(csv_scan(s1).1 =~= Seq::<char>::empty());
        let tail = seq![' '] + x;
        assert forall|i: int| 0 <= i < tail.len() implies #[trigger] tail[i] != ',' by {
            if i > 0 {
                assert(tail[i] == x[i - 1]);
            }
        }
        lemma_csv_scan_no_comma(s1, tail);
        assert(s1 + tail =~= joined(items));
        assert(csv_scan(joined(items)).1 =~= tail);
        lemma_trimmed_space_item(x);
        assert(emitted(tail) =~= seq![x]);
        assert(csv_items(joined(items)) =~= prev_items + seq![x]);
        assert(prev_items + seq![x] =~= items);
    }
}

/// A joined list of header-safe items is header-safe text: the separator
/// characters are themselves header-safe.
proof fn lemma_joined_header_safe(items: Seq<Seq<char>>)
    requires
        forall|i: int| 0 <= i < items.len() ==> header_safe(#[trigger] items[i]),
    ensures
        header_safe(joined(items)),
    decreases items.len(),
{
    if items.len() <= 1 {
    } else {
        let prev_items = items.drop_last();
        assert forall|i: int| 0 <= i < prev_items.len() implies header_safe(
            #[trigger] prev_items[i],
        ) by {
            assert(prev_items[i] == items[i]);
        }
        lemma_joined_header_safe(prev_items);
        let j0 = joined(prev_items);
        let x = items.last();
        let j = joined(items);
        assert(j == j0 + seq![',', ' '] + x);
        assert forall|k: int| 0 <= k < j.len() implies header_safe_char(#[trigger] j[k]) by {
            if k < j0.len() {
                assert(j[k] == j0[k]);
                assert(header_safe_char(j0[k]));
            } else if k == j0.len() {
                assert(j[k] == ',');
            } else if k == j0.len() + 1 {
                assert(j[k] == ' ');
            } else {
                assert(j[k] == x[k - j0.len() - 2]);
                assert(header_safe_char(x[k - j0.len() - 2]));
            }
        }
    }
}

/// Writing a list of round-trippable, header-safe items as one header
/// value and reading the value back yields the original list.
pub proof fn lemma_csv_list_round_trip(items: Seq<Seq<char>>)
    requires
        forall|i: int|
            0 <= i < items.len() ==> csv_item(#[trigger] items[i]) && header_safe(items[i]),
    ensures
        bytes_are_text(encoded_bytes(joined(items))),
        csv_items(decoded_chars(encoded_bytes(joined(items)))) == items,
{
    lemma_joined_header_safe(items);
    lemma_span_id_round_trip(joined(items));
    lemma_csv_round_trip(items);
}

impl IntoHeaderValue<u16> {
    /// Read a header value as an unsigned 16-bit integer, as the 64-bit
    /// reading, narrowed to this width's range.
    pub fn decode(value: &Vec<u8>) -> (r: Result<Self, InvalidHeader>)
        ensures
            r is Ok <==> bytes_are_text(value@) && dec_digits(unsigned_body(decoded_chars(value@)))
                && dec_value(unsigned_body(decoded_chars(value@))) <= u16::MAX,
            r matches Ok(v) ==> v.0 as nat == dec_value(unsigned_body(decoded_chars(value@))),
    {
        match IntoHeaderValue::<u64>::decode(value) {
            Ok(wide) => if wide.0 <= u16::MAX as u64 {
                Ok(IntoHeaderValue(wide.0 as u16))
            } else {
                Err(InvalidHeader)
            },
            Err(e) => Err(e),
        }
    }

    /// Write the integer as a header value: its decimal digits.
    pub fn encode(&self) -> (r: Vec<u8>)
        ensures
            bytes_are_text(r@),
            dec_digits(decoded_chars(r@)),
            dec_value(decoded_chars(r@)) == self.0 as nat,
    {
        u64_digits(self.0 as u64)
    }
}

impl IntoHeaderValue<u32> {
    /// Read a header value as an unsigned 32-bit integer, as the 64-bit
    /// reading, narrowed to this width's range.
    pub fn decode(value: &Vec<u8>) -> (r: Result<Self, InvalidHeader>)
        ensures
            r is Ok <==> bytes_are_text(value@) && dec_digits(unsigned_body(decoded_chars(value@)))
                && dec_value(unsigned_body(decoded_chars(value@))) <= u32::MAX,
            r matches Ok(v) ==> v.0 as nat == dec_value(unsigned_body(decoded_chars(value@))),
    {
        match IntoHeaderValue::<u64>::decode(value) {
            Ok(wide) => if wide.0 <= u32::MAX as u64 {
                Ok(IntoHeaderValue(wide.0 as u32))
            } else {
                Err(InvalidHeader)
            },
            Err(e) => Err(e),
        }
    }

    /// Write the integer as a header value: its decimal digits.
    pub fn encode(&self) -> (r: Vec<u8>)
        ensures
            bytes_are_text(r@),
            dec_digits(decoded_chars(r@)),
            dec_value(decoded_chars(r@)) == self.0 as nat,
    {
        u64_digits(self.0 as u64)
    }
}

impl IntoHeaderValue<usize> {
    /// Read a header value as a pointer-sized unsigned integer, as the
    /// 64-bit reading, narrowed to this machine's range.
    pub fn decode(value: &Vec<u8>) -> (r: Result<Self, InvalidHeader>)
        ensures
            r is Ok <==> bytes_are_text(value@) && dec_digits(unsigned_body(decoded_chars(value@)))
                && dec_value(unsigned_body(decoded_chars(value@))) <= usize::MAX
                && dec_value(unsigned_body(decoded_chars(value@))) <= u64::MAX,
            r matches Ok(v) ==> v.0 as nat == dec_value(unsigned_body(decoded_chars(value@))),
    {
        match IntoHeaderValue::<u64>::decode(value) {
            Ok(wide) => if wide.0 <= usize::MAX as u64 {
                Ok(IntoHeaderValue(wide.0 as usize))
            } else {
                Err(InvalidHeader)
            },
            Err(e) => Err(e),
        }
    }

    /// Write the integer as a header value: its decimal digits.
    pub fn encode(&self) -> (r: Vec<u8>)
        ensures
            bytes_are_text(r@),
            dec_digits(decoded_chars(r@)),
            dec_value(decoded_chars(r@)) == self.0 as nat,
    {
        u64_digits(self.0 as u64)
    }
}

/// The digits of a signed number: everything after one optional `+` or
/// `-` sign.
pub open spec fn signed_body(s: Seq<char>) -> Seq<char> {
    if s.len() > 0 && (s[0] == '+' || s[0] == '-') {
        s.drop_first()
    } else {
        s
    }
}

/// Whether signed decimal text carries a leading minus sign.
pub open spec fn has_minus(s: Seq<char>) -> bool {
    s.len() > 0 && s[0] == '-'
}

/// The number signed decimal text denotes.
pub open spec fn signed_dec_value(s: Seq<char>) -> int {
    if has_minus(s) {
        -(dec_value(signed_body(s)) as int)
    } else {
        dec_value(signed_body(s)) as int
    }
}

/// Whether text denotes a number a signed 64-bit integer can hold: an
/// optional sign, then only digits, within range.
pub open spec fn i64_parsable(s: Seq<char>) -> bool {
    dec_digits(signed_body(s)) && i64::MIN <= signed_dec_value(s) <= i64::MAX
}

/// Parse signed decimal text as a signed 64-bit integer: an optional sign,
/// then digits. Succeeds exactly on the texts such an integer can hold.
fn parse_i64_digits(s: &str) -> (r: Option<i64>)
    requires
        s.is_ascii(),
    ensures
        r is Some <==> i64_parsable(s@),
        r matches Some(v) ==> v as int == signed_dec_value(s@),
{
    let len = s.unicode_len();
    if len > 0 && s.get_char(0) == '-' {
        let rest = s.substring_ascii(1, len);
        proof {
            assert(rest@ =~= signed_body(s@));
        }
        match parse_dec_digits(rest) {
            Some(magnitude) => {
                if magnitude > 9223372036854775808u64 {
                    return None;
                }
                if magnitude == 9223372036854775808u64 {
                    Some(i64::MIN)
                } else {
                    Some(-(magnitude as i64))
                }
            },
            None => {
                proof {
                    if dec_digits(rest@) {
                        assert(dec_value(rest@) > u64::MAX);
                    }
                }
                None
            },
        }
    } else if len > 0 && s.get_char(0) == '+' {
        let rest = s.substring_ascii(1, len);
        proof {
            assert(rest@ =~= signed_body(s@));
        }
        match parse_dec_digits(rest) {
            Some(magnitude) => {
                if magnitude > i64::MAX as u64 {
                    return None;
                }
                Some(magnitude as i64)
            },
            None => None,
        }
    } else {
        proof {
            assert(signed_body(s@) == s@);
        }
        match parse_dec_digits(s) {
            Some(magnitude) => {
                if magnitude > i64::MAX as u64 {
                    return None;
                }
                Some(magnitude as i64)
            },
            None => None,
        }
    }
}

impl IntoHeaderValue<i64> {
    /// Read a header value as a signed 64-bit integer: the value's text
    /// parsed as decimal digits with an optional leading sign. Fails on a
    /// value that is not text, not such digits, or out of range.
    pub fn decode(value: &Vec<u8>) -> (r: Result<Self, InvalidHeader>)
        ensures
            r is Ok <==> bytes_are_text(value@) && i64_parsable(decoded_chars(value@)),
            r matches Ok(v) ==> v.0 as int == signed_dec_value(decoded_chars(value@)),
    {
        let text = match header_value_text(value) {
            Some(t) => t,
            None => {
                return Err(InvalidHeader);
            },
        };
        proof {
            lemma_header_safe_is_ascii(text@);
        }
        match parse_i64_digits(text.as_str()) {
            Some(v) => Ok(IntoHeaderValue(v)),
            None => Err(InvalidHeader),
        }
    }

    /// Write the integer as a header value: a minus sign where the number
    /// is negative, then its decimal digits with no leading zero.
    pub fn encode(&self) -> (r: Vec<u8>)
        ensures
            bytes_are_text(r@),
            dec_digits(signed_body(decoded_chars(r@))),
            signed_dec_value(decoded_chars(r@)) == self.0 as int,
            has_minus(decoded_chars(r@)) <==> self.0 < 0,
    {
        if self.0 >= 0 {
            let r = u64_digits(self.0 as u64);
            proof {
                assert(decoded_chars(r@)[0] != '+' && decoded_chars(r@)[0] != '-') by {
                    assert(is_dec_digit(decoded_chars(r@)[0]));
                }
                assert(signed_body(decoded_chars(r@)) == decoded_chars(r@));
            }
            r
        } else {
            let magnitude: u64 = if self.0 == i64::MIN {
                9223372036854775808u64
            } else {
                (-self.0) as u64
            };
            let digits = u64_digits(magnitude);
            let mut r: Vec<u8> = Vec::new();
            r.push(45);
            let mut i: usize = 0;
            while i < digits.len()
                invariant
                    0 <= i <= digits@.len(),
                    r@ =~= seq![45u8] + digits@.take(i as int),
                decreases digits@.len() - i,
            {
                let b = digits[i];
                r.push(b);
                proof {
                    assert(digits@.take(i as int + 1) =~= digits@.take(i as int).push(
                        digits@[i as int],
                    ));
                }
                i = i + 1;
            }
            proof {
                assert(digits@.take(i as int) =~= digits@);
                assert(r@ =~= seq![45u8] + digits@);
                assert(decoded_chars(r@)[0] == (45u8 as char));
                assert((45u8 as char) == '-') by {
                    assert((45u8 as char) as u32 == 45);
                }
                assert(signed_body(decoded_chars(r@)) =~= decoded_chars(digits@)) by {
                    assert forall|j: int|
                        0 <= j < digits@.len() implies decoded_chars(r@).drop_first()[j]
                        == decoded_chars(digits@)[j] by {
                        assert(r@[j + 1] == digits@[j]);
                    }
                }
                assert(bytes_are_text(r@)) by {
                    assert forall|j: int|
                        0 <= j < r@.len() implies crate::request::header_text_byte(
                        #[trigger] r@[j],
                    ) by {
                        if j > 0 {
                            assert(r@[j] == digits@[j - 1]);
                        }
                    }
                }
            }
            r
        }
    }
}

impl IntoHeaderValue<i16> {
    /// Read a header value as a signed 16-bit integer, as the 64-bit
    /// reading, narrowed to this width's range.
    pub fn decode(value: &Vec<u8>) -> (r: Result<Self, InvalidHeader>)
        ensures
            r is Ok <==> bytes_are_text(value@) && dec_digits(signed_body(decoded_chars(value@)))
                && i16::MIN <= signed_dec_value(decoded_chars(value@)) <= i16::MAX,
            r matches Ok(v) ==> v.0 as int == signed_dec_value(decoded_chars(value@)),
    {
        match IntoHeaderValue::<i64>::decode(value) {
            Ok(wide) => if i16::MIN as i64 <= wide.0 && wide.0 <= i16::MAX as i64 {
                Ok(IntoHeaderValue(wide.0 as i16))
            } else {
                Err(InvalidHeader)
            },
            Err(e) => Err(e),
        }
    }

    /// Write the integer as a header value: an optional minus sign, then
    /// its decimal digits.
    pub fn encode(&self) -> (r: Vec<u8>)
        ensures
            bytes_are_text(r@),
            dec_digits(signed_body(decoded_chars(r@))),
            signed_dec_value(decoded_chars(r@)) == self.0 as int,
    {
        IntoHeaderValue(self.0 as i64).encode()
    }
}

impl IntoHeaderValue<i32> {
    /// Read a header value as a signed 32-bit integer, as the 64-bit
    /// reading, narrowed to this width's range.
    pub fn decode(value: &Vec<u8>) -> (r: Result<Self, InvalidHeader>)
        ensures
            r is Ok <==> bytes_are_text(value@) && dec_digits(signed_body(decoded_chars(value@)))
                && i32::MIN <= signed_dec_value(decoded_chars(value@)) <= i32::MAX,
            r matches Ok(v) ==> v.0 as int == signed_dec_value(decoded_chars(value@)),
    {
        match IntoHeaderValue::<i64>::decode(value) {
            Ok(wide) => if i32::MIN as i64 <= wide.0 && wide.0 <= i32::MAX as i64 {
                Ok(IntoHeaderValue(wide.0 as i32))
            } else {
                Err(InvalidHeader)
            },
            Err(e) => Err(e),
        }
    }

    /// Write the integer as a header value: an optional minus sign, then
    /// its decimal digits.
    pub fn encode(&self) -> (r: Vec<u8>)
        ensures
            bytes_are_text(r@),
            dec_digits(signed_body(decoded_chars(r@))),
            signed_dec_value(decoded_chars(r@)) == self.0 as int,
    {
        IntoHeaderValue(self.0 as i64).encode()
    }
}

impl IntoHeaderValue<isize> {
    /// Read a header value as a pointer-sized signed integer, as the
    /// 64-bit reading, narrowed to this machine's range.
    pub fn decode(value: &Vec<u8>) -> (r: Result<Self, InvalidHeader>)
        ensures
            r is Ok <==> bytes_are_text(value@) && dec_digits(signed_body(decoded_chars(value@)))
                && isize::MIN <= signed_dec_value(decoded_chars(value@)) <= isize::MAX
                && i64::MIN <= signed_dec_value(decoded_chars(value@)) <= i64::MAX,
            r matches Ok(v) ==> v.0 as int == signed_dec_value(decoded_chars(value@)),
    {
        match IntoHeaderValue::<i64>::decode(value) {
            Ok(wide) => if isize::MIN as i64 <= wide.0 && wide.0 <= isize::MAX as i64 {
                Ok(IntoHeaderValue(wide.0 as isize))
            } else {
                Err(InvalidHeader)
            },
            Err(e) => Err(e),
        }
    }

    /// Write the integer as a header value: an optional minus sign, then
    /// its decimal digits.
    pub fn encode(&self) -> (r: Vec<u8>)
        ensures
            bytes_are_text(r@),
            dec_digits(signed_body(decoded_chars(r@))),
            signed_dec_value(decoded_chars(r@)) == self.0 as int,
    {
        IntoHeaderValue(self.0 as i64).encode()
    }
}

/// Writing a signed 64-bit integer as a header value and reading the value
/// back yields the original number.
pub proof fn lemma_i64_round_trip(bytes: Seq<u8>, v: i64)
    requires
        bytes_are_text(bytes),
        dec_digits(signed_body(decoded_chars(bytes))),
        signed_dec_value(decoded_chars(bytes)) == v as int,
    ensures
        i64_parsable(decoded_chars(bytes)),
{
}

/// Encoding an identifier of header-safe characters and decoding the result
/// yields the original identifier, character for character.
pub proof fn lemma_span_id_round_trip(s: Seq<char>)
    requires
        header_safe(s),
    ensures
        bytes_are_text(encoded_bytes(s)),
        decoded_chars(encoded_bytes(s)) == s,
{
    let bs = encoded_bytes(s);
    assert forall|i: int|
        0 <= i < bs.len() implies crate::request::header_text_byte(#[trigger] bs[i]) by {
        assert(header_safe_char(s[i]));
    }
    assert(decoded_chars(bs) =~= s) by {
        assert forall|i: int| 0 <= i < s.len() implies decoded_chars(bs)[i] == s[i] by {
            assert(header_safe_char(s[i]));
            assert(bs[i] == (s[i] as u32) as u8);
            vstd::utf8::char_u32_cast(s[i], s[i] as u32);
            assert((bs[i] as u32) == (s[i] as u32));
        }
    }
}

} // verus!
