//! The base protocol of the language server connection: each message is a JSON
//! text behind a `Content-Length` header. Framing an outgoing message, and reading
//! the header lines of an incoming one, line by line.
use vstd::prelude::*;
use crate::text::{
    append_chars, chars_of, chars_utf8_width, decimal_string, decimal_text, string_from_chars,
    string_of, trim, trim_chars, utf8_width,
};
use crate::session::{is_usize_text, parse_usize, parses_as_usize};
use crate::json::{
    json_view, lemma_members_view_index, lemma_values_view_index, member_index, members_view,
    JsonData, JsonValue,
};

verus! {

/// The framed form of a message: `Content-Length: `, the byte length of the
/// trimmed JSON text, an empty line (`\r\n\r\n`), then the trimmed text.
pub open spec fn framed(json: Seq<char>) -> Seq<char> {
    let body = trim(json);
    "Content-Length: "@ + decimal_text(utf8_width(body)) + "\r\n\r\n"@ + body
}

/// Frames a JSON message for the language server (see [`framed`]); its text must
/// not be longer than the largest `usize` in bytes.
pub fn frame_message(json: &str) -> (r: String)
    requires
        utf8_width(trim(json@)) <= usize::MAX,
    ensures
        r@ == framed(json@),
{
    let body = trim_chars(&chars_of(json));
    let length = chars_utf8_width(body.as_slice());
    let mut out = chars_of("Content-Length: ");
    let digits = chars_of(decimal_string(length as u64).as_str());
    append_chars(&mut out, digits.as_slice());
    let blank = chars_of("\r\n\r\n");
    append_chars(&mut out, blank.as_slice());
    append_chars(&mut out, body.as_slice());
    string_from_chars(out.as_slice())
}

/// Why an incoming message cannot be read.
#[derive(Debug)]
pub enum FrameError {
    /// The connection ended inside the header.
    UnexpectedEof,
    /// A header line without its line ending, or without `: ` (the line as read).
    MalformedHeader(String),
    /// A `Content-Length` whose value is not a `usize` (the value).
    InvalidContentLength(String),
    /// The header ended without a `Content-Length`.
    NoContentLength,
}

/// What follows a header line.
#[derive(Debug, Clone, Copy, PartialEq, Eq, Structural)]
pub enum HeaderStep {
    /// Read the next header line; the content length known so far.
    Continue(Option<usize>),
    /// The header is over: read a body of this many bytes.
    Body(usize),
}

/// `c` in lower case, if it is an ASCII capital.
pub open spec fn ascii_lower(c: char) -> char {
    if 'A' <= c && c <= 'Z' {
        ((c as u32) + 32) as char
    } else {
        c
    }
}

/// Whether two texts are equal but for the case of ASCII letters.
pub open spec fn eq_ignore_ascii_case(a: Seq<char>, b: Seq<char>) -> bool {
    a.len() == b.len() && forall|i: int| 0 <= i < a.len() ==> ascii_lower(#[trigger] a[i]) == ascii_lower(b[i])
}

/// The first index from `i` on where `: ` starts in `s`.
pub open spec fn first_separator(s: Seq<char>, i: int) -> Option<int>
    decreases s.len() - i,
{
    if i < 0 || i + 1 >= s.len() {
        None
    } else if s[i] == ':' && s[i + 1] == ' ' {
        Some(i)
    } else {
        first_separator(s, i + 1)
    }
}

/// Whether `s` ends with `\r\n`.
pub open spec fn ends_with_crlf(s: Seq<char>) -> bool {
    s.len() >= 2 && s[s.len() - 2] == '\r' && s[s.len() - 1] == '\n'
}

fn lower_ascii(c: char) -> (r: char)
    ensures
        r == ascii_lower(c),
{
    if 'A' <= c && c <= 'Z' {
        let u = c as u32 + 32;
        proof {
            assert(0x41 <= u - 32 <= 0x5A);
        }
        if u == 0x61 { 'a' } else if u == 0x62 { 'b' } else if u == 0x63 { 'c' } else if u == 0x64 { 'd' }
        else if u == 0x65 { 'e' } else if u == 0x66 { 'f' } else if u == 0x67 { 'g' } else if u == 0x68 { 'h' }
        else if u == 0x69 { 'i' } else if u == 0x6A { 'j' } else if u == 0x6B { 'k' } else if u == 0x6C { 'l' }
        else if u == 0x6D { 'm' } else if u == 0x6E { 'n' } else if u == 0x6F { 'o' } else if u == 0x70 { 'p' }
        else if u == 0x71 { 'q' } else if u == 0x72 { 'r' } else if u == 0x73 { 's' } else if u == 0x74 { 't' }
        else if u == 0x75 { 'u' } else if u == 0x76 { 'v' } else if u == 0x77 { 'w' } else if u == 0x78 { 'x' }
        else if u == 0x79 { 'y' } else { 'z' }
    } else {
        c
    }
}

fn chars_eq_ignore_ascii_case(a: &[char], b: &[char]) -> (r: bool)
    ensures
        r == eq_ignore_ascii_case(a@, b@),
{
    if a.len() != b.len() {
        return false;
    }
    let mut i: usize = 0;
    while i < a.len()
        invariant
            i <= a.len(),
            a.len() == b.len(),
            forall|k: int| 0 <= k < i ==> ascii_lower(#[trigger] a@[k]) == ascii_lower(b@[k]),
        decreases a.len() - i,
    {
        if lower_ascii(a[i]) != lower_ascii(b[i]) {
            return false;
        }
        i = i + 1;
    }
    true
}

/// What a header line (as read, with its line ending; empty at the end of the
/// connection) leads to, given the content length read so far.
pub open spec fn header_outcome(size: Option<usize>, line: Seq<char>) -> Option<HeaderStep> {
    if line.len() == 0 || !ends_with_crlf(line) {
        None
    } else {
        let h = line.take(line.len() - 2);
        if h.len() == 0 {
            match size {
                Some(n) => Some(HeaderStep::Body(n)),
                None => None,
            }
        } else {
            match first_separator(h, 0) {
                None => None,
                Some(k) => if eq_ignore_ascii_case(h.take(k), "Content-Length"@) {
                    if is_usize_text(h.skip(k + 2)) {
                        Some(HeaderStep::Continue(Some(choose|n: usize| #[trigger] parses_as_usize(h.skip(k + 2), n))))
                    } else {
                        None
                    }
                } else {
                    Some(HeaderStep::Continue(size))
                },
            }
        }
    }
}

/// Reads one header line of an incoming message. An empty `line` means the
/// connection ended. A line must end in `\r\n`; an empty line ends the header,
/// which must have given a `Content-Length`; other lines are `name: value`, and a
/// `Content-Length` (in any case) must be a `usize`. Other headers are skipped.
pub fn read_header_line(size: Option<usize>, line: &str) -> (r: Result<HeaderStep, FrameError>)
    ensures
        line@.len() == 0 ==> r matches Err(FrameError::UnexpectedEof),
        line@.len() > 0 && !ends_with_crlf(line@) ==> (r matches Err(FrameError::MalformedHeader(m))
            && m@ == line@),
        line@.len() > 0 && ends_with_crlf(line@) ==> {
            let h = line@.take(line@.len() - 2);
            if h.len() == 0 {
                match size {
                    Some(n) => r == Ok::<HeaderStep, FrameError>(HeaderStep::Body(n)),
                    None => r matches Err(FrameError::NoContentLength),
                }
            } else {
                match first_separator(h, 0) {
                    None => r matches Err(FrameError::MalformedHeader(m)) && m@ == h,
                    Some(k) => if eq_ignore_ascii_case(h.take(k), "Content-Length"@) {
                        if is_usize_text(h.skip(k + 2)) {
                            r matches Ok(HeaderStep::Continue(Some(n))) && parses_as_usize(h.skip(k + 2), n)
                        } else {
                            r matches Err(FrameError::InvalidContentLength(v)) && v@ == h.skip(k + 2)
                        }
                    } else {
                        r == Ok::<HeaderStep, FrameError>(HeaderStep::Continue(size))
                    },
                }
            }
        },
        r matches Ok(step) ==> header_outcome(size, line@) == Some(step),
        r is Err ==> header_outcome(size, line@) is None,
{
    let chars = chars_of(line);
    if chars.len() == 0 {
        return Err(FrameError::UnexpectedEof);
    }
    let n = chars.len();
    if !(n >= 2 && chars[n - 2] == '\r' && chars[n - 1] == '\n') {
        return Err(FrameError::MalformedHeader(string_from_chars(chars.as_slice())));
    }
    let mut h: Vec<char> = Vec::new();
    let mut i: usize = 0;
    while i < n - 2
        invariant
            i <= n - 2,
            n == chars.len(),
            h@ == chars@.take(i as int),
        decreases n - 2 - i,
    {
        h.push(chars[i]);
        i = i + 1;
        assert(h@ =~= chars@.take(i as int));
    }
    let ghost hv = chars@.take(n - 2);
    if h.len() == 0 {
        return match size {
            Some(len) => Ok(HeaderStep::Body(len)),
            None => Err(FrameError::NoContentLength),
        };
    }
    let mut k: usize = 0;
    while k + 1 < h.len() && !(h[k] == ':' && h[k + 1] == ' ')
        invariant
            k < h.len(),
            h@ == hv,
            first_separator(hv, k as int) == first_separator(hv, 0),
        decreases h.len() - k,
    {
        k = k + 1;
    }
    if k + 1 >= h.len() {
        return Err(FrameError::MalformedHeader(string_from_chars(h.as_slice())));
    }
    let mut name: Vec<char> = Vec::new();
    let mut j: usize = 0;
    while j < k
        invariant
            j <= k < h.len(),
            name@ == h@.take(j as int),
        decreases k - j,
    {
        name.push(h[j]);
        j = j + 1;
        assert(name@ =~= h@.take(j as int));
    }
    let mut value: Vec<char> = Vec::new();
    let mut m: usize = k + 2;
    while m < h.len()
        invariant
            k + 2 <= m <= h.len(),
            value@ == h@.subrange(k + 2, m as int),
        decreases h.len() - m,
    {
        value.push(h[m]);
        m = m + 1;
        assert(value@ =~= h@.subrange(k + 2, m as int));
    }
    assert(h@.subrange(k + 2, h.len() as int) =~= h@.skip(k + 2));
    let header_name = chars_of("Content-Length");
    if chars_eq_ignore_ascii_case(name.as_slice(), header_name.as_slice()) {
        match parse_usize(value.as_slice()) {
            Some(len) => {
                proof {
                    let w = choose|w: usize| #[trigger] parses_as_usize(hv.skip(k + 2), w);
                    assert(parses_as_usize(hv.skip(k + 2), len));
                    lemma_parse_unique(hv.skip(k + 2), w, len);
                }
                Ok(HeaderStep::Continue(Some(len)))
            },
            None => Err(FrameError::InvalidContentLength(string_from_chars(value.as_slice()))),
        }
    } else {
        Ok(HeaderStep::Continue(size))
    }
}

proof fn lemma_parse_unique(s: Seq<char>, a: usize, b: usize)
    requires
        parses_as_usize(s, a),
        parses_as_usize(s, b),
    ensures
        a == b,
{
}

/// How the reply to a request ends.
#[derive(Debug, Clone, Copy, PartialEq, Eq, Structural)]
pub enum ResponseCheck {
    /// The reply answers the request with a result.
    Result,
    /// The reply has no usable `id`.
    MissingId,
    /// The reply answers another request (the id it has).
    MismatchedId(u64),
    /// The reply reports an error.
    Error,
    /// The reply has neither error nor result.
    MissingResult,
}

/// Checks a reply to request `expected_id`, given its `id` (if it is a `u64`) and
/// whether it has an `error` and a `result` field: the id must match, and an error
/// wins over a result.
pub fn check_response(expected_id: u64, response_id: Option<u64>, has_error: bool, has_result: bool) -> (r:
    ResponseCheck)
    ensures
        r == (match response_id {
            None => ResponseCheck::MissingId,
            Some(id) => if id != expected_id {
                ResponseCheck::MismatchedId(id)
            } else if has_error {
                ResponseCheck::Error
            } else if has_result {
                ResponseCheck::Result
            } else {
                ResponseCheck::MissingResult
            },
        }),
{
    match response_id {
        None => ResponseCheck::MissingId,
        Some(id) => if id != expected_id {
            ResponseCheck::MismatchedId(id)
        } else if has_error {
            ResponseCheck::Error
        } else if has_result {
            ResponseCheck::Result
        } else {
            ResponseCheck::MissingResult
        },
    }
}

proof fn lemma_decimal_text_parses(n: nat)
    ensures
        decimal_text(n).len() > 0,
        forall|k: int| 0 <= k < decimal_text(n).len() ==> crate::session::is_digit(#[trigger] decimal_text(n)[k]),
        crate::session::decimal_value(decimal_text(n)) == n,
    decreases n,
{
    let digit = (('0' as u32) + n % 10) as char;
    assert(crate::session::digit_value(digit) == n % 10);
    assert(crate::session::is_digit(digit));
    if n < 10 {
        let t = decimal_text(n);
        assert(t.drop_last() =~= Seq::<char>::empty());
        assert(t.last() == digit);
        assert(crate::session::decimal_value(t) == crate::session::decimal_value(t.drop_last()) * 10
            + crate::session::digit_value(t.last()));
        assert(n % 10 == n);
    }
    if n >= 10 {
        lemma_decimal_text_parses(n / 10);
        let t = decimal_text(n);
        assert(t == decimal_text(n / 10).push(digit));
        assert(t.drop_last() =~= decimal_text(n / 10));
        assert(forall|k: int| 0 <= k < t.len() - 1 ==> t[k] == decimal_text(n / 10)[k]);
        assert(t.last() == digit);
        assert(crate::session::decimal_value(t) == crate::session::decimal_value(t.drop_last()) * 10
            + crate::session::digit_value(t.last()));
        assert(crate::session::decimal_value(t.drop_last()) == n / 10);
        assert((n / 10) * 10 + n % 10 == n) by (nonlinear_arith);
        assert(crate::session::decimal_value(t) == n);
    }
}

/// What [`frame_message`] announces, [`read_header_line`] reads back: the header
/// line of a framed message gives its length, and the empty line after it ends the
/// header with that length.
pub proof fn law_frame_header_reads_back(n: usize)
    ensures
        header_outcome(None, "Content-Length: "@ + decimal_text(n as nat) + "\r\n"@) == Some(
            HeaderStep::Continue(Some(n)),
        ),
        header_outcome(Some(n), "\r\n"@) == Some(HeaderStep::Body(n)),
{
    reveal_strlit("Content-Length: ");
    reveal_strlit("Content-Length");
    reveal_strlit("\r\n");
    let digits = decimal_text(n as nat);
    lemma_decimal_text_parses(n as nat);
    let prefix = "Content-Length: "@;
    let line = prefix + digits + "\r\n"@;
    let h = line.take(line.len() - 2);
    assert(h =~= prefix + digits);
    assert(ends_with_crlf(line));
    assert(h.take(14) =~= "Content-Length"@);
    assert(h.skip(16) =~= digits);
    assert(first_separator(h, 0) == Some(14int)) by {
        reveal_with_fuel(first_separator, 16);
        assert(h[14] == ':' && h[15] == ' ');
    }
    assert(eq_ignore_ascii_case(h.take(14), "Content-Length"@));
    assert(crate::session::unsigned_digits(digits) =~= digits) by {
        assert(crate::session::is_digit(digits[0]));
    }
    assert(parses_as_usize(digits, n));
    let w = choose|w: usize| #[trigger] parses_as_usize(h.skip(16), w);
    lemma_parse_unique(digits, w, n);
    assert("\r\n"@.take(0) =~= Seq::<char>::empty());
}

/// What a `workspace/symbol` reply says of the progress token sent with the
/// request.
#[derive(Debug, Clone, Copy, PartialEq, Eq, Structural)]
pub enum TokenCheck {
    /// The reply carries the token: it is the answer.
    Matches,
    /// The reply carries no token: ask again.
    Absent,
    /// The reply carries another token: give up.
    Mismatch,
}

/// The value of the first member named `key` of an object, if it is one.
pub open spec fn member_of(v: JsonData, key: Seq<char>) -> Option<JsonData> {
    match v {
        JsonData::Object(members) => match member_index(members, key, 0) {
            Some(i) => Some(members[i].1),
            None => None,
        },
        _ => None,
    }
}

/// The first element of an array; `null` for anything else.
pub open spec fn first_element(v: JsonData) -> JsonData {
    match v {
        JsonData::Array(items) => if items.len() > 0 { items[0] } else { JsonData::Null },
        _ => JsonData::Null,
    }
}

/// Whether a JSON value is the integer `n`.
pub open spec fn is_integer(v: JsonData, n: i32) -> bool {
    v matches JsonData::Number(Some(x), _) && x == n
}

/// The token check of a reply (see [`TokenCheck`]): the `workDoneToken` of the
/// `params` of the reply's first element.
pub open spec fn token_check(data: JsonData, expected: i32) -> TokenCheck {
    match member_of(first_element(data), "params"@) {
        None => TokenCheck::Absent,
        Some(params) => match member_of(params, "workDoneToken"@) {
            None => TokenCheck::Absent,
            Some(token) => if is_integer(token, expected) {
                TokenCheck::Matches
            } else {
                TokenCheck::Mismatch
            },
        },
    }
}

fn get_member<'a>(v: &'a JsonValue, key: &String) -> (r: Option<&'a JsonValue>)
    ensures
        match member_of(v@, key@) {
            Some(d) => r matches Some(x) && x@ == d,
            None => r is None,
        },
{
    match v {
        JsonValue::Object(members) => {
            proof {
                lemma_members_view_index(members@);
                lemma_member_index_range(members_view(members@), key@, 0);
            }
            assert(v@ == JsonData::Object(members_view(members@)));
            let mut i: usize = 0;
            while i < members.len()
                invariant
                    i <= members.len(),
                    v@ == JsonData::Object(members_view(members@)),
                    members_view(members@).len() == members.len(),
                    forall|k: int| 0 <= k < members.len() ==> #[trigger] members_view(members@)[k] == (
                    members@[k].0@, json_view(members@[k].1)),
                    member_index(members_view(members@), key@, i as int) == member_index(
                        members_view(members@),
                        key@,
                        0,
                    ),
                decreases members.len() - i,
            {
                if members[i].0 == *key {
                    assert(members_view(members@)[i as int].0 == key@);
                    assert(member_index(members_view(members@), key@, i as int) == Some(i as int));
                    return Some(&members[i].1);
                }
                i = i + 1;
            }
            None
        },
        _ => None,
    }
}

proof fn lemma_member_index_range(members: Seq<(Seq<char>, JsonData)>, key: Seq<char>, from: int)
    requires
        0 <= from,
    ensures
        member_index(members, key, from) matches Some(i) ==> from <= i < members.len(),
    decreases members.len() - from,
{
    if from < members.len() {
        lemma_member_index_range(members, key, from + 1);
    }
}

/// Checks the progress token of a `workspace/symbol` reply (see [`token_check`]).
pub fn check_work_done_token(data: &JsonValue, expected: i32) -> (r: TokenCheck)
    ensures
        r == token_check(data@, expected),
{
    let first = match data {
        JsonValue::Array(items) => {
            proof {
                lemma_values_view_index(items@);
            }
            if items.len() > 0 {
                Some(&items[0])
            } else {
                None
            }
        },
        _ => None,
    };
    let params = match first {
        Some(f) => get_member(f, &string_of("params")),
        None => None,
    };
    match params {
        None => TokenCheck::Absent,
        Some(p) => match get_member(p, &string_of("workDoneToken")) {
            None => TokenCheck::Absent,
            Some(token) => match token {
                JsonValue::Number(n) => match n.as_i64 {
                    Some(x) => if x == expected as i64 {
                        TokenCheck::Matches
                    } else {
                        TokenCheck::Mismatch
                    },
                    None => TokenCheck::Mismatch,
                },
                _ => TokenCheck::Mismatch,
            },
        },
    }
}

} // verus!
