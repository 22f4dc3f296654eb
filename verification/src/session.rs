//! Session helpers: cleaning input, naming session files, choosing a model and
//! reading a symbol range given as text.
use vstd::prelude::*;
use crate::text::{append_chars, chars_of, string_from_chars};

verus! {

/// The ASCII characters of `s`, in order.
pub open spec fn ascii_only(s: Seq<char>) -> Seq<char> {
    s.filter(|c: char| (c as u32) < 128)
}

/// Drops every non-ASCII character of `s`.
pub fn filter_non_ascii(s: &str) -> (r: String)
    ensures
        r@ == ascii_only(s@),
{
    let chars = chars_of(s);
    let ghost pred = |c: char| (c as u32) < 128;
    let mut out: Vec<char> = Vec::new();
    let mut i: usize = 0;
    proof {
        reveal(Seq::filter);
    }
    assert(chars@.take(0) =~= Seq::<char>::empty());
    while i < chars.len()
        invariant
            i <= chars.len(),
            pred == (|c: char| (c as u32) < 128),
            out@ == chars@.take(i as int).filter(pred),
        decreases chars.len() - i,
    {
        proof {
            reveal(Seq::filter);
        }
        assert(chars@.take(i + 1).drop_last() =~= chars@.take(i as int));
        assert(chars@.take(i + 1).last() == chars@[i as int]);
        let c = chars[i];
        if (c as u32) < 128 {
            out.push(c);
        }
        i = i + 1;
    }
    assert(chars@.take(chars.len() as int) =~= chars@);
    string_from_chars(out.as_slice())
}

/// The file name under which a session is saved: its id with a `.json` extension.
pub fn get_session_filename(session_id: &str) -> (r: String)
    ensures
        r@ == session_id@ + ".json"@,
{
    let mut out = chars_of(session_id);
    let extension = chars_of(".json");
    append_chars(&mut out, extension.as_slice());
    string_from_chars(out.as_slice())
}

/// The message with which model selection fails.
pub open spec fn no_model_message() -> Seq<char> {
    "no preferred models available"@
}

/// The first preference, in order, that is among the available models.
pub open spec fn first_available(preferences: Seq<Seq<char>>, available: Seq<Seq<char>>, i: int) -> Option<int>
    decreases preferences.len() - i,
{
    if i < 0 || i >= preferences.len() {
        None
    } else if available.contains(preferences[i]) {
        Some(i)
    } else {
        first_available(preferences, available, i + 1)
    }
}

/// Picks the first of the preferred models (by name, in order of preference) that is
/// available; returns its index among the preferences.
pub fn select_preferred_model(preferences: &Vec<String>, available: &Vec<String>) -> (r: Result<usize, String>)
    ensures
        match first_available(crate::text::views_of(preferences@), crate::text::views_of(available@), 0) {
            Some(i) => r == Ok::<usize, String>(i as usize),
            None => r matches Err(m) && m@ == no_model_message(),
        },
{
    let ghost prefs = crate::text::views_of(preferences@);
    let ghost avail = crate::text::views_of(available@);
    let mut i: usize = 0;
    while i < preferences.len()
        invariant
            i <= preferences.len(),
            prefs == crate::text::views_of(preferences@),
            avail == crate::text::views_of(available@),
            first_available(prefs, avail, i as int) == first_available(prefs, avail, 0),
        decreases preferences.len() - i,
    {
        assert(prefs[i as int] == preferences@[i as int]@);
        if crate::text::strings_contain(available, &preferences[i]) {
            return Ok(i);
        }
        i = i + 1;
    }
    Err(crate::text::string_of("no preferred models available"))
}

/// The value of a decimal digit character.
pub open spec fn digit_value(c: char) -> int {
    (c as int) - ('0' as int)
}

/// Whether `c` is a decimal digit.
pub open spec fn is_digit(c: char) -> bool {
    '0' <= c && c <= '9'
}

/// The number a string of decimal digits denotes.
pub open spec fn decimal_value(s: Seq<char>) -> int
    decreases s.len(),
{
    if s.len() == 0 {
        0
    } else {
        decimal_value(s.drop_last()) * 10 + digit_value(s.last())
    }
}

/// The text after an optional leading `+`.
pub open spec fn unsigned_digits(s: Seq<char>) -> Seq<char> {
    if s.len() > 0 && s[0] == '+' { s.drop_first() } else { s }
}

/// What `str::parse` accepts for an unsigned integer type whose largest value is
/// `max`: an optional `+` followed by one or more decimal digits whose value `v`
/// is at most `max`.
pub open spec fn parses_unsigned(s: Seq<char>, v: int, max: int) -> bool {
    let digits = unsigned_digits(s);
    &&& digits.len() > 0
    &&& forall|k: int| 0 <= k < digits.len() ==> is_digit(#[trigger] digits[k])
    &&& decimal_value(digits) == v
    &&& v <= max
}

/// What `str::parse::<u32>` accepts, and the value it gives.
pub open spec fn parses_as_u32(s: Seq<char>, v: u32) -> bool {
    parses_unsigned(s, v as int, u32::MAX as int)
}

/// Whether `str::parse::<u32>` accepts `s`.
pub open spec fn is_u32_text(s: Seq<char>) -> bool {
    exists|v: u32| parses_as_u32(s, v)
}

/// What `str::parse::<usize>` accepts, and the value it gives.
pub open spec fn parses_as_usize(s: Seq<char>, v: usize) -> bool {
    parses_unsigned(s, v as int, usize::MAX as int)
}

/// Whether `str::parse::<usize>` accepts `s`.
pub open spec fn is_usize_text(s: Seq<char>) -> bool {
    exists|v: usize| parses_as_usize(s, v)
}

proof fn lemma_decimal_value_nonneg(s: Seq<char>)
    requires
        forall|k: int| 0 <= k < s.len() ==> is_digit(#[trigger] s[k]),
    ensures
        decimal_value(s) >= 0,
    decreases s.len(),
{
    if s.len() > 0 {
        lemma_decimal_value_nonneg(s.drop_last());
    }
}

proof fn lemma_decimal_value_grows(s: Seq<char>, t: Seq<char>)
    requires
        s.len() <= t.len(),
        s == t.take(s.len() as int),
        forall|k: int| 0 <= k < t.len() ==> is_digit(#[trigger] t[k]),
    ensures
        decimal_value(s) <= decimal_value(t),
    decreases t.len(),
{
    if s.len() < t.len() {
        assert(t.drop_last().take(s.len() as int) =~= s);
        lemma_decimal_value_grows(s, t.drop_last());
        lemma_decimal_value_nonneg(t.drop_last());
    } else {
        assert(s =~= t);
    }
}

/// Parses decimal text as `str::parse` does for an unsigned type whose largest
/// value is `max` (see [`parses_unsigned`]).
fn parse_unsigned(s: &[char], max: u64) -> (r: Option<u64>)
    ensures
        match r {
            Some(v) => parses_unsigned(s@, v as int, max as int),
            None => forall|v: int| !parses_unsigned(s@, v, max as int),
        },
{
    let start: usize = if s.len() > 0 && s[0] == '+' { 1 } else { 0 };
    let ghost digits = unsigned_digits(s@);
    assert(digits =~= s@.skip(start as int));
    if start >= s.len() {
        assert(digits.len() == 0);
        return None;
    }
    let mut value: u128 = 0;
    let mut i: usize = start;
    while i < s.len()
        invariant
            start <= i <= s.len(),
            digits == s@.skip(start as int),
            digits == unsigned_digits(s@),
            forall|k: int| start <= k < i ==> is_digit(#[trigger] s@[k]),
            value == decimal_value(s@.subrange(start as int, i as int)),
            value <= max,
        decreases s.len() - i,
    {
        let c = s[i];
        if !('0' <= c && c <= '9') {
            proof {
                assert forall|v: int| !parses_unsigned(s@, v, max as int) by {
                    let k: int = i - start;
                    assert(digits[k] == s@[i as int]);
                    assert(!is_digit(digits[k]));
                }
            }
            return None;
        }
        assert(s@.subrange(start as int, i + 1).drop_last() =~= s@.subrange(start as int, i as int));
        let d = (c as u32 - '0' as u32) as u128;
        value = value * 10 + d;
        i = i + 1;
        if value > max as u128 {
            proof {
                assert forall|v: int| !parses_unsigned(s@, v, max as int) by {
                    if parses_unsigned(s@, v, max as int) {
                        assert(s@.subrange(start as int, i as int) =~= digits.take((i - start) as int));
                        lemma_decimal_value_grows(s@.subrange(start as int, i as int), digits);
                    }
                }
            }
            return None;
        }
    }
    assert(s@.subrange(start as int, s.len() as int) =~= digits);
    Some(value as u64)
}

/// Parses decimal text as `str::parse::<u32>` does (see [`parses_as_u32`]).
pub fn parse_u32(s: &[char]) -> (r: Option<u32>)
    ensures
        match r {
            Some(v) => parses_as_u32(s@, v),
            None => !is_u32_text(s@),
        },
{
    match parse_unsigned(s, u32::MAX as u64) {
        Some(v) => Some(v as u32),
        None => None,
    }
}

/// Parses decimal text as `str::parse::<usize>` does (see [`parses_as_usize`]).
pub fn parse_usize(s: &[char]) -> (r: Option<usize>)
    ensures
        match r {
            Some(v) => parses_as_usize(s@, v),
            None => !is_usize_text(s@),
        },
{
    match parse_unsigned(s, usize::MAX as u64) {
        Some(v) => Some(v as usize),
        None => None,
    }
}

/// A position in a source file: a line and a character in it.
#[derive(Debug, Clone, Copy, PartialEq, Eq, Structural)]
pub struct SymbolPosition {
    pub line: u32,
    pub character: u32,
}

/// A range in a source file.
#[derive(Debug, Clone, Copy, PartialEq, Eq, Structural)]
pub struct SymbolRange {
    pub start: SymbolPosition,
    pub end: SymbolPosition,
}

/// The pieces of `s` between commas.
pub open spec fn comma_fields(s: Seq<char>) -> Seq<Seq<char>>
    decreases s.len(),
{
    if s.len() == 0 {
        seq![Seq::empty()]
    } else {
        let earlier = comma_fields(s.drop_last());
        if s.last() == ',' {
            earlier.push(Seq::empty())
        } else {
            earlier.update(earlier.len() - 1, earlier.last().push(s.last()))
        }
    }
}

proof fn lemma_comma_fields_nonempty(s: Seq<char>)
    ensures
        comma_fields(s).len() >= 1,
    decreases s.len(),
{
    if s.len() > 0 {
        lemma_comma_fields_nonempty(s.drop_last());
    }
}

/// The message for a range that does not have four fields.
pub open spec fn invalid_range_message() -> Seq<char> {
    "Invalid range"@
}

/// The message for a range whose fields are not all numbers.
pub open spec fn unparsable_range_message() -> Seq<char> {
    "Failed to parse range"@
}

/// Reads a range written `start_line,start_char,end_line,end_char`.
pub fn parse_symbol_range(text: &str) -> (r: Result<SymbolRange, String>)
    ensures
        ({
            let fields = comma_fields(text@);
            if fields.len() != 4 {
                r matches Err(m) && m@ == invalid_range_message()
            } else if is_u32_text(fields[0]) && is_u32_text(fields[1]) && is_u32_text(fields[2])
                && is_u32_text(fields[3]) {
                r matches Ok(range) && parses_as_u32(fields[0], range.start.line) && parses_as_u32(
                    fields[1],
                    range.start.character,
                ) && parses_as_u32(fields[2], range.end.line) && parses_as_u32(
                    fields[3],
                    range.end.character,
                )
            } else {
                r matches Err(m) && m@ == unparsable_range_message()
            }
        }),
{
    let chars = chars_of(text);
    let mut fields: Vec<Vec<char>> = Vec::new();
    fields.push(Vec::new());
    let mut i: usize = 0;
    assert(chars@.take(0) =~= Seq::<char>::empty());
    while i < chars.len()
        invariant
            i <= chars.len(),
            fields.len() >= 1,
            fields@.map_values(|f: Vec<char>| f@) == comma_fields(chars@.take(i as int)),
        decreases chars.len() - i,
    {
        assert(chars@.take(i + 1).drop_last() =~= chars@.take(i as int));
        assert(chars@.take(i + 1).last() == chars@[i as int]);
        let ghost before = fields@.map_values(|f: Vec<char>| f@);
        if chars[i] == ',' {
            fields.push(Vec::new());
            assert(fields@.map_values(|f: Vec<char>| f@) =~= before.push(Seq::empty()));
        } else {
            let last = fields.len() - 1;
            let mut field = fields.pop().unwrap();
            field.push(chars[i]);
            fields.push(field);
            assert(fields@.map_values(|f: Vec<char>| f@) =~= before.update(
                before.len() - 1,
                before.last().push(chars@[i as int]),
            ));
        }
        i = i + 1;
    }
    assert(chars@.take(chars.len() as int) =~= chars@);
    assert(fields@.map_values(|f: Vec<char>| f@).len() == fields.len());
    if fields.len() != 4 {
        return Err(crate::text::string_of("Invalid range"));
    }
    assert(fields@[0]@ == comma_fields(text@)[0]);
    assert(fields@[1]@ == comma_fields(text@)[1]);
    assert(fields@[2]@ == comma_fields(text@)[2]);
    assert(fields@[3]@ == comma_fields(text@)[3]);
    let start_line = parse_u32(fields[0].as_slice());
    let start_char = parse_u32(fields[1].as_slice());
    let end_line = parse_u32(fields[2].as_slice());
    let end_char = parse_u32(fields[3].as_slice());
    match (start_line, start_char, end_line, end_char) {
        (Some(sl), Some(sc), Some(el), Some(ec)) => Ok(
            SymbolRange {
                start: SymbolPosition { line: sl, character: sc },
                end: SymbolPosition { line: el, character: ec },
            },
        ),
        _ => Err(crate::text::string_of("Failed to parse range")),
    }
}

} // verus!
