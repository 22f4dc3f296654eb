//! Character-level helpers shared by the text-handling modules: the Unicode
//! `White_Space` property, UTF-16 widths, trailing-whitespace trimming and
//! decimal rendering of integers.
use vstd::prelude::*;

verus! {

/// The Unicode `White_Space` property, the set that `char::is_whitespace` tests.
pub open spec fn is_white_space(c: char) -> bool {
    let u = c as int;
    ||| (0x09 <= u && u <= 0x0D)
    ||| u == 0x20
    ||| u == 0x85
    ||| u == 0xA0
    ||| u == 0x1680
    ||| (0x2000 <= u && u <= 0x200A)
    ||| u == 0x2028
    ||| u == 0x2029
    ||| u == 0x202F
    ||| u == 0x205F
    ||| u == 0x3000
}

/// Whether every character of `s` is whitespace (true of the empty sequence).
pub open spec fn all_white_space(s: Seq<char>) -> bool {
    forall|i: int| 0 <= i < s.len() ==> is_white_space(#[trigger] s[i])
}

/// Number of UTF-16 code units that encode `c`.
pub open spec fn utf16_len(c: char) -> nat {
    if (c as u32) < 0x10000 { 1 } else { 2 }
}

/// Sum of the UTF-16 lengths of the characters of `s`.
pub open spec fn utf16_width(s: Seq<char>) -> nat
    decreases s.len(),
{
    if s.len() == 0 {
        0
    } else {
        utf16_width(s.drop_last()) + utf16_len(s.last())
    }
}

/// `s` without its trailing whitespace.
pub open spec fn trim_end(s: Seq<char>) -> Seq<char>
    decreases s.len(),
{
    if s.len() > 0 && is_white_space(s.last()) {
        trim_end(s.drop_last())
    } else {
        s
    }
}

/// Tests `c` for the Unicode `White_Space` property.
pub fn char_is_whitespace(c: char) -> (r: bool)
    ensures
        r == is_white_space(c),
{
    let u = c as u32;
    (0x09 <= u && u <= 0x0D) || u == 0x20 || u == 0x85 || u == 0xA0 || u == 0x1680 || (0x2000
        <= u && u <= 0x200A) || u == 0x2028 || u == 0x2029 || u == 0x202F || u == 0x205F || u
        == 0x3000
}

} // verus!
verus! {

/// The characters of `s`, in order.
pub fn chars_of(s: &str) -> (v: Vec<char>)
    ensures
        v@ == s@,
{
    let mut v: Vec<char> = Vec::new();
    for c in it: s.chars()
        invariant
            v@ == it.seq().take(it.index() as int),
            it.seq() == s@,
    {
        v.push(c);
    }
    v
}

} // verus!
verus! {

/// Builds a `String` from characters, through std's `FromIterator<char>` for
/// `String`. Trusted: the resulting string is claimed to hold exactly `v`, in order,
/// which is what std documents of collecting characters into a `String`.
#[verifier::external_body]
pub(crate) fn string_from_chars(v: &[char]) -> (s: String)
    ensures
        s@ == v@,
{
    v.iter().collect()
}

/// Removes trailing whitespace from `v`.
pub fn trim_end_in_place(v: &mut Vec<char>)
    ensures
        final(v)@ == trim_end(old(v)@),
{
    while v.len() > 0 && char_is_whitespace(v[v.len() - 1])
        invariant
            trim_end(v@) == trim_end(old(v)@),
        decreases v.len(),
    {
        let ghost before = v@;
        v.pop();
        assert(v@ == before.drop_last());
    }
}

/// Whether every character of `v` is whitespace.
pub fn chars_all_whitespace(v: &[char]) -> (r: bool)
    ensures
        r == all_white_space(v@),
{
    let mut i: usize = 0;
    while i < v.len()
        invariant
            i <= v.len(),
            forall|k: int| 0 <= k < i ==> is_white_space(#[trigger] v@[k]),
        decreases v.len() - i,
    {
        if !char_is_whitespace(v[i]) {
            return false;
        }
        i = i + 1;
    }
    true
}

/// The UTF-16 width of `v`.
pub fn chars_utf16_width(v: &[char]) -> (w: u64)
    requires
        v@.len() < 0x1000_0000,
    ensures
        w == utf16_width(v@),
{
    let mut w: u64 = 0;
    let mut i: usize = 0;
    while i < v.len()
        invariant
            i <= v.len(),
            v@.len() < 0x1000_0000,
            w == utf16_width(v@.take(i as int)),
            w <= 2 * i,
        decreases v.len() - i,
    {
        assert(v@.take(i + 1).drop_last() == v@.take(i as int));
        assert(v@.take(i + 1).last() == v@[i as int]);
        let c = v[i];
        if (c as u32) < 0x10000 {
            w = w + 1;
        } else {
            w = w + 2;
        }
        i = i + 1;
    }
    assert(v@.take(v@.len() as int) == v@);
    w
}

} // verus!
verus! {

/// Appends the characters of `src` to `dst`.
pub fn append_chars(dst: &mut Vec<char>, src: &[char])
    ensures
        final(dst)@ == old(dst)@ + src@,
{
    let mut i: usize = 0;
    while i < src.len()
        invariant
            i <= src.len(),
            dst@ == old(dst)@ + src@.take(i as int),
        decreases src.len() - i,
    {
        dst.push(src[i]);
        i = i + 1;
        assert(src@.take(i as int) == src@.take(i - 1).push(src@[i - 1]));
    }
    assert(src@.take(src@.len() as int) == src@);
}

/// Every character counts at least one UTF-16 unit and at most two.
pub proof fn lemma_utf16_width_bounds(s: Seq<char>)
    ensures
        s.len() <= utf16_width(s) <= 2 * s.len(),
    decreases s.len(),
{
    if s.len() > 0 {
        lemma_utf16_width_bounds(s.drop_last());
    }
}

/// Trimming never widens a sequence, and leaves no trailing whitespace.
pub proof fn lemma_trim_end(s: Seq<char>)
    ensures
        utf16_width(trim_end(s)) <= utf16_width(s),
        trim_end(s).len() == 0 || !is_white_space(trim_end(s).last()),
        trim_end(s).len() <= s.len(),
        trim_end(s) == s.take(trim_end(s).len() as int),
    decreases s.len(),
{
    if s.len() > 0 && is_white_space(s.last()) {
        lemma_trim_end(s.drop_last());
        assert(s.drop_last().take(trim_end(s).len() as int) =~= s.take(trim_end(s).len() as int));
    } else {
        assert(s.take(s.len() as int) =~= s);
    }
}

/// Width is additive over concatenation.
pub proof fn lemma_utf16_width_concat(a: Seq<char>, b: Seq<char>)
    ensures
        utf16_width(a + b) == utf16_width(a) + utf16_width(b),
    decreases b.len(),
{
    if b.len() > 0 {
        lemma_utf16_width_concat(a, b.drop_last());
        assert((a + b).drop_last() =~= a + b.drop_last());
    } else {
        assert(a + b =~= a);
    }
}

/// The pieces of `list` with `sep` between each two of them.
pub open spec fn seq_join(list: Seq<Seq<char>>, sep: Seq<char>) -> Seq<char>
    decreases list.len(),
{
    if list.len() == 0 {
        Seq::empty()
    } else if list.len() == 1 {
        list[0]
    } else {
        seq_join(list.drop_last(), sep) + sep + list.last()
    }
}

/// The views of a list of strings.
pub open spec fn views_of(list: Seq<String>) -> Seq<Seq<char>> {
    list.map_values(|s: String| s@)
}

/// Joins `list` with `sep` between each two pieces.
pub fn join_strings(list: &Vec<String>, sep: &str) -> (r: String)
    ensures
        r@ == seq_join(views_of(list@), sep@),
{
    let ghost pieces = views_of(list@);
    let sep_chars = chars_of(sep);
    let mut out: Vec<char> = Vec::new();
    let mut i: usize = 0;
    while i < list.len()
        invariant
            i <= list.len(),
            pieces == views_of(list@),
            sep_chars@ == sep@,
            out@ == seq_join(pieces.take(i as int), sep@),
        decreases list.len() - i,
    {
        let piece = chars_of(list[i].as_str());
        assert(pieces.take(i + 1).drop_last() =~= pieces.take(i as int));
        assert(pieces.take(i + 1).last() == list@[i as int]@);
        if i > 0 {
            append_chars(&mut out, sep_chars.as_slice());
        } else {
            assert(pieces.take(1) =~= seq![list@[0]@]);
            assert(out@ =~= Seq::<char>::empty());
        }
        append_chars(&mut out, piece.as_slice());
        if i == 0 {
            assert(out@ =~= list@[0]@);
        }
        i = i + 1;
    }
    assert(pieces.take(list.len() as int) =~= pieces);
    string_from_chars(out.as_slice())
}

/// A `String` holding the characters of `s`.
pub fn string_of(s: &str) -> (r: String)
    ensures
        r@ == s@,
{
    string_from_chars(chars_of(s).as_slice())
}

/// `a` followed by `b`.
pub fn concat_strs(a: &str, b: &str) -> (r: String)
    ensures
        r@ == a@ + b@,
{
    let mut out = chars_of(a);
    let tail = chars_of(b);
    append_chars(&mut out, tail.as_slice());
    string_from_chars(out.as_slice())
}

/// Whether `name` is among `list`.
pub fn strings_contain(list: &Vec<String>, name: &String) -> (r: bool)
    ensures
        r == views_of(list@).contains(name@),
{
    let mut i: usize = 0;
    while i < list.len()
        invariant
            i <= list.len(),
            forall|k: int| 0 <= k < i ==> list@[k]@ != name@,
        decreases list.len() - i,
    {
        if list[i] == *name {
            assert(views_of(list@)[i as int] == name@);
            return true;
        }
        i = i + 1;
    }
    proof {
        if views_of(list@).contains(name@) {
            let k = choose|k: int|
                0 <= k < views_of(list@).len() && views_of(list@)[k] == name@;
            assert(list@[k]@ == name@);
        }
    }
    false
}

/// Number of bytes that encode `c` in UTF-8.
pub open spec fn utf8_len(c: char) -> nat {
    let u = c as u32;
    if u < 0x80 {
        1
    } else if u < 0x800 {
        2
    } else if u < 0x10000 {
        3
    } else {
        4
    }
}

/// Number of bytes that encode `s` in UTF-8.
pub open spec fn utf8_width(s: Seq<char>) -> nat
    decreases s.len(),
{
    if s.len() == 0 {
        0
    } else {
        utf8_width(s.drop_last()) + utf8_len(s.last())
    }
}

/// `s` without its leading whitespace.
pub open spec fn trim_start(s: Seq<char>) -> Seq<char>
    decreases s.len(),
{
    if s.len() > 0 && is_white_space(s[0]) {
        trim_start(s.drop_first())
    } else {
        s
    }
}

/// `s` without leading and trailing whitespace, as `str::trim` gives it.
pub open spec fn trim(s: Seq<char>) -> Seq<char> {
    trim_start(trim_end(s))
}

proof fn lemma_trim_start_skip(s: Seq<char>, i: int)
    requires
        0 <= i <= s.len(),
        forall|k: int| 0 <= k < i ==> is_white_space(#[trigger] s[k]),
    ensures
        trim_start(s) == trim_start(s.skip(i)),
    decreases i,
{
    if i > 0 {
        assert(s.drop_first().skip(i - 1) =~= s.skip(i));
        lemma_trim_start_skip(s.drop_first(), i - 1);
    } else {
        assert(s.skip(0) =~= s);
    }
}

/// `v` without leading and trailing whitespace.
pub fn trim_chars(v: &Vec<char>) -> (r: Vec<char>)
    ensures
        r@ == trim(v@),
{
    let mut end_trimmed = v.clone();
    trim_end_in_place(&mut end_trimmed);
    let ghost t = end_trimmed@;
    let mut i: usize = 0;
    while i < end_trimmed.len() && char_is_whitespace(end_trimmed[i])
        invariant
            i <= end_trimmed.len(),
            t == end_trimmed@,
            forall|k: int| 0 <= k < i ==> is_white_space(#[trigger] t[k]),
        decreases end_trimmed.len() - i,
    {
        i = i + 1;
    }
    proof {
        lemma_trim_start_skip(t, i as int);
        if i < t.len() {
            assert(!is_white_space(t.skip(i as int)[0]));
        }
    }
    let mut out: Vec<char> = Vec::new();
    let mut j: usize = i;
    while j < end_trimmed.len()
        invariant
            i <= j <= end_trimmed.len(),
            t == end_trimmed@,
            out@ == t.subrange(i as int, j as int),
        decreases end_trimmed.len() - j,
    {
        out.push(end_trimmed[j]);
        j = j + 1;
        assert(out@ =~= t.subrange(i as int, j as int));
    }
    assert(t.subrange(i as int, t.len() as int) =~= t.skip(i as int));
    out
}

/// The number of bytes that encode `v` in UTF-8.
pub fn chars_utf8_width(v: &[char]) -> (w: usize)
    requires
        utf8_width(v@) <= usize::MAX,
    ensures
        w == utf8_width(v@),
{
    let mut w: usize = 0;
    let mut i: usize = 0;
    while i < v.len()
        invariant
            i <= v.len(),
            w == utf8_width(v@.take(i as int)),
            utf8_width(v@) <= usize::MAX,
        decreases v.len() - i,
    {
        assert(v@.take(i + 1).drop_last() =~= v@.take(i as int));
        proof {
            lemma_utf8_width_prefix(v@, i + 1);
        }
        let c = v[i];
        let n: usize = if (c as u32) < 0x80 {
            1
        } else if (c as u32) < 0x800 {
            2
        } else if (c as u32) < 0x10000 {
            3
        } else {
            4
        };
        w = w + n;
        i = i + 1;
    }
    assert(v@.take(v.len() as int) =~= v@);
    w
}

/// No prefix is wider than the whole.
pub proof fn lemma_utf8_width_prefix(s: Seq<char>, k: int)
    requires
        0 <= k <= s.len(),
    ensures
        utf8_width(s.take(k)) <= utf8_width(s),
    decreases s.len() - k,
{
    if k < s.len() {
        lemma_utf8_width_prefix(s, k + 1);
        assert(s.take(k + 1).drop_last() =~= s.take(k));
    } else {
        assert(s.take(k) =~= s);
    }
}

/// The decimal digits of `n`.
pub open spec fn decimal_text(n: nat) -> Seq<char>
    decreases n,
{
    let digit = (('0' as u32) + n % 10) as char;
    if n < 10 {
        seq![digit]
    } else {
        decimal_text(n / 10).push(digit)
    }
}

/// The character of decimal digit `d`.
fn digit_char(d: usize) -> (c: char)
    requires
        d < 10,
    ensures
        c == (('0' as u32) + d) as char,
{
    if d == 0 {
        '0'
    } else if d == 1 {
        '1'
    } else if d == 2 {
        '2'
    } else if d == 3 {
        '3'
    } else if d == 4 {
        '4'
    } else if d == 5 {
        '5'
    } else if d == 6 {
        '6'
    } else if d == 7 {
        '7'
    } else if d == 8 {
        '8'
    } else {
        '9'
    }
}

/// The decimal digits of `n`.
pub fn decimal_string(n: u64) -> (r: String)
    ensures
        r@ == decimal_text(n as nat),
{
    let mut digits: Vec<char> = Vec::new();
    let mut m: u64 = n;
    let ghost mut done: Seq<char> = Seq::empty();
    loop
        invariant
            digits@ == done,
            decimal_text(n as nat) == decimal_text(m as nat) + done,
        decreases m,
    {
        let c = digit_char((m % 10) as usize);
        if m < 10 {
            let mut out: Vec<char> = Vec::new();
            out.push(c);
            append_chars(&mut out, digits.as_slice());
            assert(decimal_text(m as nat) == seq![c]);
            assert(out@ =~= seq![c] + done);
            return string_from_chars(out.as_slice());
        }
        proof {
            assert(decimal_text(m as nat) == decimal_text((m / 10) as nat).push(c));
            assert(decimal_text((m / 10) as nat).push(c) + done =~= decimal_text((m / 10) as nat) + (
            seq![c] + done));
            done = seq![c] + done;
        }
        digits.insert(0, c);
        assert(digits@ =~= done);
        m = m / 10;
    }
}

/// The decimal text of a signed integer: a minus sign before a negative one.
pub open spec fn signed_decimal_text(x: int) -> Seq<char> {
    if x < 0 {
        seq!['-'] + decimal_text((-x) as nat)
    } else {
        decimal_text(x as nat)
    }
}

/// Writes a signed integer in decimal.
pub fn signed_decimal_string(x: i64) -> (r: String)
    ensures
        r@ == signed_decimal_text(x as int),
{
    if x < 0 {
        let magnitude: u64 = if x == i64::MIN { 0x8000_0000_0000_0000u64 } else { (-x) as u64 };
        let digits = decimal_string(magnitude);
        let mut out: Vec<char> = Vec::new();
        out.push('-');
        let tail = chars_of(digits.as_str());
        append_chars(&mut out, tail.as_slice());
        assert(out@ =~= seq!['-'] + decimal_text((-x) as nat));
        string_from_chars(out.as_slice())
    } else {
        decimal_string(x as u64)
    }
}

} // verus!
