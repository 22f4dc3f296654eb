//! Greedy word wrapping of plain text into lines of bounded UTF-16 width.
//!
//! The wrapper consumes a sequence of words (word-boundary segments of the text,
//! whitespace runs and punctuation included) and composes one line at a time.
use vstd::prelude::*;
use crate::text::{
    all_white_space, append_chars, chars_all_whitespace, chars_of, chars_utf16_width,
    lemma_trim_end, lemma_utf16_width_bounds, lemma_utf16_width_concat, string_from_chars,
    trim_end, trim_end_in_place, utf16_width,
};

verus! {

/// A word that ends the current line: a newline or a CR LF pair.
pub open spec fn is_line_break(w: Seq<char>) -> bool {
    w == seq!['\n'] || w == seq!['\r', '\n']
}

/// Composes the line that starts at word `i`, given the text `line` gathered so far.
/// Returns the gathered line and the index of the first word not consumed.
///
/// - leading whitespace words are dropped when `trim` is set;
/// - a word wider than `max` is dropped if it is only whitespace; otherwise it
///   becomes a line of its own (ending the current line first if that is not empty);
/// - a line break word is consumed and ends the line;
/// - a word that does not fit ends the line without being consumed.
pub open spec fn scan_line(words: Seq<Seq<char>>, i: nat, line: Seq<char>, max: nat, trim: bool) -> (
    Seq<char>,
    nat,
)
    decreases words.len() - i,
{
    if i >= words.len() {
        (line, i)
    } else {
        let w = words[i as int];
        let width = utf16_width(line);
        let ww = utf16_width(w);
        if trim && all_white_space(w) && width == 0 {
            scan_line(words, i + 1, line, max, trim)
        } else if ww > max {
            if all_white_space(w) {
                scan_line(words, i + 1, line, max, trim)
            } else if width == 0 {
                (w, i + 1)
            } else {
                (line, i)
            }
        } else if is_line_break(w) {
            (line, i + 1)
        } else if width + ww > max {
            (line, i)
        } else {
            scan_line(words, i + 1, line + w, max, trim)
        }
    }
}

/// The index of the first word at or after `i` that is not only whitespace.
pub open spec fn skip_white_space_words(words: Seq<Seq<char>>, i: nat) -> nat
    decreases words.len() - i,
{
    if i < words.len() && all_white_space(words[i as int]) {
        skip_white_space_words(words, i + 1)
    } else {
        i
    }
}

/// One step of the wrapper: the line produced from position `pos` (with its width),
/// or `None`, and the position the wrapper moves to.
pub open spec fn wrap_step(words: Seq<Seq<char>>, pos: nat, max: nat, trim: bool) -> (
    Option<(Seq<char>, nat)>,
    nat,
) {
    if max == 0 {
        (None, pos)
    } else {
        let (line, next) = scan_line(words, pos, seq![], max, trim);
        let trimmed = trim_end(line);
        let after = skip_white_space_words(words, next);
        if pos >= words.len() && trimmed.len() == 0 {
            (None, after)
        } else {
            (Some((trimmed, utf16_width(trimmed))), after)
        }
    }
}

/// Something that hands out wrapped lines one at a time.
pub trait LineComposerStr {
    /// The next line and its width, or `None` when there is nothing left.
    fn next_line(&mut self) -> Option<(String, u16)>;
}

/// Word wrapper over a list of words.
pub struct WordWrapperStr {
    words: Vec<Vec<char>>,
    position: usize,
    max_line_width: u16,
    trim: bool,
}

impl WordWrapperStr {
    /// The words the wrapper was made with.
    pub closed spec fn words(self) -> Seq<Seq<char>> {
        self.words@.map_values(|w: Vec<char>| w@)
    }

    /// Index of the first word not yet consumed.
    pub closed spec fn position(self) -> nat {
        self.position as nat
    }

    /// Maximal width of a line.
    pub closed spec fn max_line_width(self) -> nat {
        self.max_line_width as nat
    }

    /// Whether leading whitespace of a line is dropped.
    pub closed spec fn trim(self) -> bool {
        self.trim
    }

    #[verifier::type_invariant]
    closed spec fn inv(self) -> bool {
        &&& self.position <= self.words.len()
        &&& forall|k: int|
            0 <= k < self.words.len() ==> utf16_width(#[trigger] self.words@[k]@) <= u16::MAX
    }

    /// A wrapper over `words` that makes lines at most `max_line_width` wide,
    /// dropping leading whitespace of each line when `trim` is set.
    pub fn new(words: Vec<String>, max_line_width: u16, trim: bool) -> (r: WordWrapperStr)
        requires
            forall|k: int| 0 <= k < words.len() ==> utf16_width(#[trigger] words@[k]@) <= u16::MAX,
        ensures
            r.words() == words@.map_values(|w: String| w@),
            r.position() == 0,
            r.max_line_width() == max_line_width,
            r.trim() == trim,
    {
        let mut converted: Vec<Vec<char>> = Vec::new();
        let mut i: usize = 0;
        while i < words.len()
            invariant
                i <= words.len(),
                converted.len() == i,
                forall|k: int| 0 <= k < i ==> (#[trigger] converted@[k])@ == words@[k]@,
            decreases words.len() - i,
        {
            converted.push(chars_of(words[i].as_str()));
            i = i + 1;
        }
        let r = WordWrapperStr { words: converted, position: 0, max_line_width, trim };
        assert(r.words() =~= words@.map_values(|w: String| w@));
        r
    }
}

/// Whether `w` is a newline or a CR LF pair.
fn chars_are_line_break(w: &[char]) -> (r: bool)
    ensures
        r == is_line_break(w@),
{
    if w.len() == 1 {
        let r = w[0] == '\n';
        assert(r ==> w@ =~= seq!['\n']);
        r
    } else if w.len() == 2 {
        let r = w[0] == '\r' && w[1] == '\n';
        assert(r ==> w@ =~= seq!['\r', '\n']);
        r
    } else {
        false
    }
}

impl LineComposerStr for WordWrapperStr {
    /// Composes the next line (see [`wrap_step`]). Returns `None` when the maximal
    /// width is zero, or when the words are exhausted and nothing is left to show.
    fn next_line(&mut self) -> (r: Option<(String, u16)>)
        ensures
            final(self).words() == old(self).words(),
            final(self).max_line_width() == old(self).max_line_width(),
            final(self).trim() == old(self).trim(),
            ({
                let (expected, next) = wrap_step(
                    old(self).words(),
                    old(self).position(),
                    old(self).max_line_width(),
                    old(self).trim(),
                );
                &&& final(self).position() == next
                &&& match r {
                    None => expected is None,
                    Some((line, width)) => expected == Some((line@, width as nat)),
                }
            }),
    {
        proof {
            use_type_invariant(&*self);
        }
        let ghost words = self.words();
        let ghost max = self.max_line_width as nat;
        let ghost trim = self.trim;
        if self.max_line_width == 0 {
            return None;
        }
        let pos0 = self.position;
        let exhausted = self.position >= self.words.len();
        let mut line: Vec<char> = Vec::new();
        let mut width: u64 = 0;
        let mut i: usize = self.position;
        loop
            invariant_except_break
                scan_line(words, i as nat, line@, max, trim) == scan_line(
                    words,
                    pos0 as nat,
                    seq![],
                    max,
                    trim,
                ),
            invariant
                words == self.words(),
                max == self.max_line_width,
                trim == self.trim,
                self.position <= self.words.len(),
                forall|k: int|
                    0 <= k < self.words.len() ==> utf16_width(#[trigger] self.words@[k]@)
                        <= u16::MAX,
                pos0 <= i <= self.words.len(),
                width == utf16_width(line@),
                width <= u16::MAX,
            ensures
                pos0 <= i <= self.words.len(),
                width == utf16_width(line@),
                width <= u16::MAX,
                scan_line(words, pos0 as nat, seq![], max, trim) == (line@, i as nat),
            decreases self.words.len() - i,
        {
            if i >= self.words.len() {
                break;
            }
            let w = &self.words[i];
            assert(words[i as int] == w@);
            proof {
                lemma_utf16_width_bounds(w@);
            }
            let ww = chars_utf16_width(w.as_slice());
            let ws = chars_all_whitespace(w.as_slice());
            if self.trim && ws && width == 0 {
                i = i + 1;
                continue;
            }
            if ww > self.max_line_width as u64 {
                if ws {
                    i = i + 1;
                    continue;
                }
                if width == 0 {
                    let mut taken: Vec<char> = Vec::new();
                    append_chars(&mut taken, w.as_slice());
                    assert(taken@ =~= w@);
                    line = taken;
                    width = ww;
                    i = i + 1;
                    break;
                }
                break;
            }
            if chars_are_line_break(w.as_slice()) {
                i = i + 1;
                break;
            }
            if width + ww > self.max_line_width as u64 {
                break;
            }
            let ghost before = line@;
            append_chars(&mut line, w.as_slice());
            proof {
                lemma_utf16_width_concat(before, w@);
            }
            width = width + ww;
            i = i + 1;
        }
        trim_end_in_place(&mut line);
        proof {
            lemma_trim_end(scan_line(words, pos0 as nat, seq![], max, trim).0);
            lemma_utf16_width_bounds(line@);
        }
        let trimmed_width = chars_utf16_width(line.as_slice());
        while i < self.words.len() && chars_all_whitespace(self.words[i].as_slice())
            invariant
                words == self.words(),
                i <= self.words.len(),
                skip_white_space_words(words, i as nat) == skip_white_space_words(
                    words,
                    scan_line(words, pos0 as nat, seq![], max, trim).1,
                ),
            decreases self.words.len() - i,
        {
            assert(words[i as int] == self.words@[i as int]@);
            i = i + 1;
        }
        if i < self.words.len() {
            assert(words[i as int] == self.words@[i as int]@);
        }
        self.position = i;
        if exhausted && line.len() == 0 {
            None
        } else {
            Some((string_from_chars(line.as_slice()), trimmed_width as u16))
        }
    }
}

/// What scanning a line guarantees: it moves forward within the words, consumes at
/// least one word when it starts on an empty line, and yields a line that fits, or a
/// single word too wide to fit.
proof fn lemma_scan_line(words: Seq<Seq<char>>, i: nat, line: Seq<char>, max: nat, trim: bool)
    requires
        i <= words.len(),
        utf16_width(line) <= max,
    ensures
        ({
            let (l, j) = scan_line(words, i, line, max, trim);
            &&& i <= j <= words.len()
            &&& (i < words.len() && utf16_width(line) == 0) ==> j > i
            &&& (utf16_width(l) <= max || exists|k: int|
                i <= k < words.len() && l == words[k] && utf16_width(words[k]) > max
                    && !all_white_space(words[k]))
        }),
    decreases words.len() - i,
{
    if i < words.len() {
        let w = words[i as int];
        let width = utf16_width(line);
        let ww = utf16_width(w);
        if trim && all_white_space(w) && width == 0 {
            lemma_scan_line(words, i + 1, line, max, trim);
        } else if ww > max {
            if all_white_space(w) {
                lemma_scan_line(words, i + 1, line, max, trim);
            }
        } else if is_line_break(w) {
        } else if width + ww > max {
        } else {
            lemma_utf16_width_concat(line, w);
            lemma_scan_line(words, i + 1, line + w, max, trim);
        }
    }
}

proof fn lemma_skip_white_space_words(words: Seq<Seq<char>>, i: nat)
    requires
        i <= words.len(),
    ensures
        i <= skip_white_space_words(words, i) <= words.len(),
        i == words.len() ==> skip_white_space_words(words, i) == i,
    decreases words.len() - i,
{
    if i < words.len() && all_white_space(words[i as int]) {
        lemma_skip_white_space_words(words, i + 1);
    }
}

/// A composed line never ends in whitespace.
pub proof fn law_wrapped_line_has_no_trailing_whitespace(
    words: Seq<Seq<char>>,
    pos: nat,
    max: nat,
    trim: bool,
)
    ensures
        wrap_step(words, pos, max, trim).0 matches Some((line, _)) ==> line.len() == 0
            || !crate::text::is_white_space(line.last()),
{
    if max > 0 {
        lemma_trim_end(scan_line(words, pos, seq![], max, trim).0);
    }
}

/// The width handed out with a line is its UTF-16 width, and it is at most the
/// maximal width, unless the line is a single word that is wider on its own.
pub proof fn law_wrapped_line_width(words: Seq<Seq<char>>, pos: nat, max: nat, trim: bool)
    requires
        pos <= words.len(),
    ensures
        wrap_step(words, pos, max, trim).0 matches Some((line, width)) ==> {
            &&& width == utf16_width(line)
            &&& (width <= max || exists|k: int|
                pos <= k < words.len() && line == trim_end(words[k]) && utf16_width(words[k])
                    > max && !all_white_space(words[k]))
        },
{
    if max > 0 {
        let (l, j) = scan_line(words, pos, seq![], max, trim);
        lemma_scan_line(words, pos, seq![], max, trim);
        lemma_trim_end(l);
    }
}

/// Each step stays within the words, and a step taken while words remain consumes
/// at least one of them: a wrapper over `n` words hands out at most `n` lines
/// before it is exhausted.
pub proof fn law_wrap_progress(words: Seq<Seq<char>>, pos: nat, max: nat, trim: bool)
    requires
        pos <= words.len(),
    ensures
        pos <= wrap_step(words, pos, max, trim).1 <= words.len(),
        max > 0 && pos < words.len() ==> pos < wrap_step(words, pos, max, trim).1,
{
    if max > 0 {
        let (l, j) = scan_line(words, pos, seq![], max, trim);
        lemma_scan_line(words, pos, seq![], max, trim);
        lemma_skip_white_space_words(words, j);
    }
}

/// Once the words are exhausted, or when the maximal width is zero, the wrapper
/// answers `None` and stays where it is; so after a `None` it answers `None` again.
pub proof fn law_wrap_exhausted_stays_none(words: Seq<Seq<char>>, pos: nat, max: nat, trim: bool)
    requires
        pos >= words.len() || max == 0,
    ensures
        wrap_step(words, pos, max, trim) == (None::<(Seq<char>, nat)>, pos),
{
    if max > 0 {
        assert(trim_end(Seq::<char>::empty()) == Seq::<char>::empty());
    }
}

/// How many lines a wrapper from position `pos` hands out before it answers
/// `None`.
pub open spec fn wrapped_lines(words: Seq<Seq<char>>, pos: nat, max: nat, trim: bool) -> nat
    decreases words.len() - pos,
{
    if max == 0 || pos >= words.len() {
        0
    } else {
        let next = wrap_step(words, pos, max, trim).1;
        if next <= pos || next > words.len() {
            1
        } else {
            1 + wrapped_lines(words, next, max, trim)
        }
    }
}

/// The number of lines that wrapping `words` to `max_line_width` gives.
pub fn wrapped_line_count(words: &Vec<String>, max_line_width: u16, trim: bool) -> (r: usize)
    requires
        forall|k: int| 0 <= k < words.len() ==> utf16_width(#[trigger] words@[k]@) <= u16::MAX,
    ensures
        r == wrapped_lines(crate::text::views_of(words@), 0, max_line_width as nat, trim),
{
    let ghost all = crate::text::views_of(words@);
    let copy = crate::arguments::copy_strings(words);
    assert(crate::text::views_of(copy@).len() == copy@.len());
    assert(crate::text::views_of(words@).len() == words@.len());
    assert forall|k: int| 0 <= k < copy@.len() implies #[trigger] copy@[k]@ == words@[k]@ by {
        assert(crate::text::views_of(copy@)[k] == copy@[k]@);
        assert(crate::text::views_of(words@)[k] == words@[k]@);
    }
    assert(copy@.map_values(|w: String| w@) =~= all);
    let mut wrapper = WordWrapperStr::new(copy, max_line_width, trim);
    let mut count: usize = 0;
    loop
        invariant
            all == crate::text::views_of(words@),
            wrapper.words() == all,
            wrapper.max_line_width() == max_line_width,
            wrapper.trim() == trim,
            wrapper.position() <= all.len(),
            count <= wrapper.position(),
            count + wrapped_lines(all, wrapper.position(), max_line_width as nat, trim) == wrapped_lines(
                all,
                0,
                max_line_width as nat,
                trim,
            ),
        decreases all.len() - wrapper.position(),
    {
        let ghost pos = wrapper.position();
        proof {
            law_wrap_progress(all, pos, max_line_width as nat, trim);
            if pos >= all.len() || max_line_width == 0 {
                law_wrap_exhausted_stays_none(all, pos, max_line_width as nat, trim);
            }
        }
        proof {
            if pos < all.len() && max_line_width > 0 {
                assert(wrap_step(all, pos, max_line_width as nat, trim).0 is Some);
            }
        }
        match wrapper.next_line() {
            Some(_) => {
                count = count + 1;
            },
            None => {
                return count;
            },
        }
    }
}

} // verus!
