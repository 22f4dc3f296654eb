//! Editing a file's lines in place: replacing a byte range of one line with new
//! text, and reporting the change as a line diff.
use vstd::prelude::*;
use crate::text::{
    append_chars, chars_of, seq_join, string_from_chars, views_of, join_strings, utf8_len,
    utf8_width, decimal_text, decimal_string,
};

verus! {

/// Whether byte offset `b` of `s` starts a character, or is its end.
pub open spec fn is_char_boundary(s: Seq<char>, b: int) -> bool {
    exists|k: int| 0 <= k <= s.len() && #[trigger] utf8_width(s.take(k)) == b
}

/// The number of characters before byte offset `b` (a character boundary).
pub open spec fn char_index_of(s: Seq<char>, b: int) -> int {
    choose|k: int| 0 <= k <= s.len() && #[trigger] utf8_width(s.take(k)) == b
}

/// `s` with the bytes `start..end` replaced by `text`, as `String::replace_range`
/// does it.
pub open spec fn replace_bytes(s: Seq<char>, start: int, end: int, text: Seq<char>) -> Seq<char> {
    s.take(char_index_of(s, start)) + text + s.skip(char_index_of(s, end))
}

proof fn lemma_utf8_width_take_grows(s: Seq<char>, k: int)
    requires
        0 <= k < s.len(),
    ensures
        utf8_width(s.take(k + 1)) == utf8_width(s.take(k)) + utf8_len(s[k]),
{
    assert(s.take(k + 1).drop_last() =~= s.take(k));
}

proof fn lemma_utf8_width_take_strictly_grows(s: Seq<char>, j: int, k: int)
    requires
        0 <= j < k <= s.len(),
    ensures
        utf8_width(s.take(j)) < utf8_width(s.take(k)),
    decreases k - j,
{
    lemma_utf8_width_take_grows(s, k - 1);
    if j < k - 1 {
        lemma_utf8_width_take_strictly_grows(s, j, k - 1);
    }
}

/// The number of characters of `s` before byte offset `b`, when `b` is a
/// character boundary.
fn char_index_at_byte(s: &Vec<char>, b: usize) -> (r: Option<usize>)
    ensures
        match r {
            Some(k) => k <= s.len() && utf8_width(s@.take(k as int)) == b && k == char_index_of(s@, b as int),
            None => !is_char_boundary(s@, b as int),
        },
{
    let mut k: usize = 0;
    let mut width: usize = 0;
    assert(s@.take(0) =~= Seq::<char>::empty());
    loop
        invariant
            k <= s.len(),
            width == utf8_width(s@.take(k as int)),
            width <= b,
            forall|j: int| 0 <= j < k ==> utf8_width(#[trigger] s@.take(j)) < b,
        decreases s.len() - k,
    {
        if width == b {
            proof {
                let c = char_index_of(s@, b as int);
                assert(utf8_width(s@.take(k as int)) == b);
                if c != k as int {
                    if c < k {
                        assert(utf8_width(s@.take(c)) < b);
                    } else {
                        lemma_utf8_width_take_strictly_grows(s@, k as int, c);
                    }
                }
            }
            return Some(k);
        }
        if k == s.len() {
            proof {
                assert forall|j: int| 0 <= j <= s@.len() implies #[trigger] utf8_width(s@.take(j)) != b by {
                    if j < k {
                    } else {
                        assert(j == k);
                    }
                }
            }
            return None;
        }
        let c = s[k];
        let n: usize = if (c as u32) < 0x80 {
            1
        } else if (c as u32) < 0x800 {
            2
        } else if (c as u32) < 0x10000 {
            3
        } else {
            4
        };
        proof {
            lemma_utf8_width_take_grows(s@, k as int);
        }
        if n > b - width {
            proof {
                assert forall|j: int| 0 <= j <= s@.len() implies #[trigger] utf8_width(s@.take(j)) != b by {
                    if j > k + 1 {
                        lemma_utf8_width_take_strictly_grows(s@, k as int + 1, j);
                    }
                }
            }
            return None;
        }
        width = width + n;
        k = k + 1;
    }
}

/// Replaces the bytes `start..end` of `line` with `text`; both ends must be
/// character boundaries.
pub fn replace_byte_range(line: &str, start: usize, end: usize, text: &str) -> (r: String)
    requires
        start <= end,
        is_char_boundary(line@, start as int),
        is_char_boundary(line@, end as int),
    ensures
        r@ == replace_bytes(line@, start as int, end as int, text@),
{
    let chars = chars_of(line);
    let a = char_index_at_byte(&chars, start);
    let b = char_index_at_byte(&chars, end);
    let ka = a.unwrap();
    let kb = b.unwrap();
    let mut out: Vec<char> = Vec::new();
    let mut i: usize = 0;
    while i < ka
        invariant
            i <= ka <= chars.len(),
            out@ == chars@.take(i as int),
        decreases ka - i,
    {
        out.push(chars[i]);
        i = i + 1;
        assert(out@ =~= chars@.take(i as int));
    }
    let text_chars = chars_of(text);
    append_chars(&mut out, text_chars.as_slice());
    let ghost middle = out@;
    let mut j: usize = kb;
    while j < chars.len()
        invariant
            kb <= j <= chars.len(),
            out@ == middle + chars@.subrange(kb as int, j as int),
        decreases chars.len() - j,
    {
        out.push(chars[j]);
        j = j + 1;
        assert(out@ =~= middle + chars@.subrange(kb as int, j as int));
    }
    assert(chars@.subrange(kb as int, chars.len() as int) =~= chars@.skip(kb as int));
    string_from_chars(out.as_slice())
}

/// The lines after replacing bytes `col..col + del_count` of line `line_num` with
/// `text`; the other lines, and all lines when there is no such line, are kept.
pub open spec fn edited_lines(lines: Seq<Seq<char>>, line_num: int, col: int, del_count: int, text: Seq<char>) -> Seq<
    Seq<char>,
> {
    if 0 <= line_num < lines.len() {
        lines.update(line_num, replace_bytes(lines[line_num], col, col + del_count, text))
    } else {
        lines
    }
}

/// Edits line `line_num` of `lines`: the bytes `col..col + del_count` are replaced
/// with `text`. Both ends must be character boundaries of that line.
pub fn apply_line_edit(lines: &Vec<String>, line_num: usize, col: usize, del_count: usize, text: &str) -> (r: Vec<
    String,
>)
    requires
        col + del_count <= usize::MAX,
        line_num < lines.len() ==> is_char_boundary(lines@[line_num as int]@, col as int)
            && is_char_boundary(lines@[line_num as int]@, col + del_count),
    ensures
        views_of(r@) == edited_lines(views_of(lines@), line_num as int, col as int, del_count as int, text@),
{
    let mut out: Vec<String> = Vec::new();
    let mut i: usize = 0;
    while i < lines.len()
        invariant
            i <= lines.len(),
            col + del_count <= usize::MAX,
            line_num < lines.len() ==> is_char_boundary(lines@[line_num as int]@, col as int)
                && is_char_boundary(lines@[line_num as int]@, col + del_count),
            views_of(out@) == edited_lines(
                views_of(lines@),
                line_num as int,
                col as int,
                del_count as int,
                text@,
            ).take(i as int),
        decreases lines.len() - i,
    {
        let ghost before = out@;
        let ghost e = edited_lines(views_of(lines@), line_num as int, col as int, del_count as int, text@);
        let line = if i == line_num {
            replace_byte_range(lines[i].as_str(), col, col + del_count, text)
        } else {
            lines[i].clone()
        };
        assert(e.len() == lines.len());
        assert(line@ == e[i as int]);
        out.push(line);
        assert(views_of(out@) =~= views_of(before).push(line@));
        assert(e.take(i + 1) =~= e.take(i as int).push(e[i as int]));
        i = i + 1;
    }
    assert(edited_lines(views_of(lines@), line_num as int, col as int, del_count as int, text@).take(
        lines.len() as int,
    ) =~= edited_lines(views_of(lines@), line_num as int, col as int, del_count as int, text@));
    out
}

/// The line diff that `diff::lines` computes between two texts: each entry is a
/// line of the left text only, of the right text only, or of both (its left and
/// right forms).
pub uninterp spec fn line_diff_of(left: Seq<char>, right: Seq<char>) -> Seq<(Option<Seq<char>>, Option<Seq<char>>)>;

/// The content of a diff entry.
pub open spec fn entry_view(e: (Option<String>, Option<String>)) -> (Option<Seq<char>>, Option<Seq<char>>) {
    (
        match e.0 {
            Some(s) => Some(s@),
            None => None,
        },
        match e.1 {
            Some(s) => Some(s@),
            None => None,
        },
    )
}

/// The line diff of two texts, by `diff::lines`. Trusted: the result is a
/// function of the two texts alone (named [`line_diff_of`]); a line of the left
/// text only comes as `(Some(line), None)`, one of the right text only as
/// `(None, Some(line))`, one of both as `(Some(left), Some(right))`. Which lines
/// the diff pairs up is left unsaid.
#[verifier::external_body]
fn diff_lines(left: &str, right: &str) -> (r: Vec<(Option<String>, Option<String>)>)
    ensures
        r@.map_values(|e: (Option<String>, Option<String>)| entry_view(e)) == line_diff_of(left@, right@),
{
    diff::lines(left, right).into_iter().map(|d| match d {
        diff::Result::Left(l) => (Some(l.to_string()), None),
        diff::Result::Right(r) => (None, Some(r.to_string())),
        diff::Result::Both(l, r) => (Some(l.to_string()), Some(r.to_string())),
    }).collect()
}

/// How a diff entry is shown: `- ` before a removed line, `+ ` before an added
/// one, two spaces before a kept one (in its left form).
pub open spec fn diff_entry_line(e: (Option<Seq<char>>, Option<Seq<char>>)) -> Seq<char> {
    match e {
        (Some(l), None) => "- "@ + l,
        (None, Some(r)) => "+ "@ + r,
        (Some(b), Some(_)) => "  "@ + b,
        (None, None) => "  "@,
    }
}

/// The diff shown one entry per line.
pub open spec fn diff_text(entries: Seq<(Option<Seq<char>>, Option<Seq<char>>)>) -> Seq<char> {
    seq_join(entries.map_values(|e: (Option<Seq<char>>, Option<Seq<char>>)| diff_entry_line(e)), seq!['\n'])
}

/// Shows a line diff one entry per line (see [`diff_entry_line`]).
pub fn format_diff(entries: &Vec<(Option<String>, Option<String>)>) -> (r: String)
    ensures
        r@ == diff_text(entries@.map_values(|e: (Option<String>, Option<String>)| entry_view(e))),
{
    let ghost views = entries@.map_values(|e: (Option<String>, Option<String>)| entry_view(e));
    let mut shown: Vec<String> = Vec::new();
    let mut i: usize = 0;
    while i < entries.len()
        invariant
            i <= entries.len(),
            views == entries@.map_values(|e: (Option<String>, Option<String>)| entry_view(e)),
            views_of(shown@) == views.take(i as int).map_values(
                |e: (Option<Seq<char>>, Option<Seq<char>>)| diff_entry_line(e),
            ),
        decreases entries.len() - i,
    {
        let line = match &entries[i] {
            (Some(l), None) => crate::text::concat_strs("- ", l.as_str()),
            (None, Some(r)) => crate::text::concat_strs("+ ", r.as_str()),
            (Some(b), Some(_)) => crate::text::concat_strs("  ", b.as_str()),
            (None, None) => crate::text::string_of("  "),
        };
        assert(line@ == diff_entry_line(views[i as int]));
        let ghost before = shown@;
        shown.push(line);
        assert(views_of(shown@) =~= views_of(before).push(line@));
        assert(views.take(i + 1).map_values(|e: (Option<Seq<char>>, Option<Seq<char>>)| diff_entry_line(e))
            =~= views.take(i as int).map_values(
            |e: (Option<Seq<char>>, Option<Seq<char>>)| diff_entry_line(e),
        ).push(diff_entry_line(views[i as int])));
        i = i + 1;
    }
    assert(views.take(entries.len() as int) =~= views);
    proof {
        reveal_strlit("\n");
        assert("\n"@ =~= seq!['\n']);
    }
    join_strings(&shown, "\n")
}

/// The report of an edit: how many characters the text grew by, then the diff of
/// the lines.
pub open spec fn edit_report(count: nat, diff: Seq<char>) -> Seq<char> {
    decimal_text(count) + " chars added. diff of changes: "@ + diff
}

/// Reports an edit from the lines before and after it: the growth in characters
/// of the text (its lines joined by newlines), then the line diff of the two
/// texts. The text must not have shrunk.
pub fn edit_summary(lines_before: &Vec<String>, new_lines: &Vec<String>) -> (r: String)
    requires
        seq_join(views_of(new_lines@), seq!['\n']).len() >= seq_join(views_of(lines_before@), seq!['\n']).len(),
    ensures
        ({
            let old_text = seq_join(views_of(lines_before@), seq!['\n']);
            let new_text = seq_join(views_of(new_lines@), seq!['\n']);
            r@ == edit_report((new_text.len() - old_text.len()) as nat, diff_text(line_diff_of(old_text, new_text)))
        }),
{
    let old_text = join_strings(lines_before, "\n");
    let new_text = join_strings(new_lines, "\n");
    proof {
        reveal_strlit("\n");
        assert("\n"@ =~= seq!['\n']);
    }
    let entries = diff_lines(old_text.as_str(), new_text.as_str());
    let diff = format_diff(&entries);
    let new_count = chars_of(new_text.as_str()).len();
    let old_count = chars_of(old_text.as_str()).len();
    let mut out = chars_of(decimal_string((new_count - old_count) as u64).as_str());
    let label = chars_of(" chars added. diff of changes: ");
    append_chars(&mut out, label.as_slice());
    let diff_chars = chars_of(diff.as_str());
    append_chars(&mut out, diff_chars.as_slice());
    string_from_chars(out.as_slice())
}

} // verus!
