//! The workspace symbol query that the language server tool asks for: its name
//! filter, its symbol kind, its range and its file.
use vstd::prelude::*;
use crate::text::{chars_of, string_of, views_of};
use crate::session::{comma_fields, is_u32_text, parses_as_u32, parse_symbol_range, SymbolRange};

verus! {

/// What `change_case::pascal_case` makes of a text.
pub uninterp spec fn pascal_case_of(input: Seq<char>) -> Seq<char>;

/// The two characters that a case-insensitive match takes for ASCII letters
/// though they are not ASCII: the long s (for `s`) and the Kelvin sign (for `k`).
pub open spec fn folds_to_ascii_letter(c: char) -> bool {
    c == '\u{17F}' || c == '\u{212A}'
}

/// Whether `change_case` keeps `c` inside a word: an ASCII letter or digit, or a
/// character that its case-insensitive pattern takes for an ASCII letter.
pub open spec fn kept_in_word(c: char) -> bool {
    ('a' <= c && c <= 'z') || ('A' <= c && c <= 'Z') || ('0' <= c && c <= '9') || folds_to_ascii_letter(c)
}

/// Whether `change_case::pascal_case` takes `text` without panicking: no word
/// (a run of characters it keeps; it splits runs further only before ASCII
/// capitals) starts with one of the two characters of [`folds_to_ascii_letter`],
/// since the crate cuts the first byte off each word.
pub open spec fn pascal_case_safe(text: Seq<char>) -> bool {
    forall|i: int|
        0 <= i < text.len() && folds_to_ascii_letter(#[trigger] text[i]) ==> i > 0 && kept_in_word(text[i - 1])
}

/// Converts a text to PascalCase with `change_case::pascal_case`. Trusted: the
/// result depends on the text alone (it is [`pascal_case_of`] of it); how the
/// words are found and cased is left unsaid. Texts on which the crate panics (see
/// [`pascal_case_safe`]) are left out.
#[verifier::external_body]
fn to_pascal_case(input: &str) -> (r: String)
    requires
        pascal_case_safe(input@),
    ensures
        r@ == pascal_case_of(input@),
{
    change_case::pascal_case(input)
}

fn is_kept_in_word(c: char) -> (r: bool)
    ensures
        r == kept_in_word(c),
{
    ('a' <= c && c <= 'z') || ('A' <= c && c <= 'Z') || ('0' <= c && c <= '9') || c == '\u{17F}' || c
        == '\u{212A}'
}

/// Whether `change_case::pascal_case` takes `text` without panicking (see
/// [`pascal_case_safe`]).
pub fn check_pascal_case_safe(text: &str) -> (r: bool)
    ensures
        r == pascal_case_safe(text@),
{
    let chars = chars_of(text);
    let mut i: usize = 0;
    while i < chars.len()
        invariant
            i <= chars.len(),
            chars@ == text@,
            forall|j: int|
                0 <= j < i && folds_to_ascii_letter(#[trigger] text@[j]) ==> j > 0 && kept_in_word(text@[j - 1]),
        decreases chars.len() - i,
    {
        if chars[i] == '\u{17F}' || chars[i] == '\u{212A}' {
            if i == 0 || !is_kept_in_word(chars[i - 1]) {
                return false;
            }
        }
        i = i + 1;
    }
    true
}

/// The names of the symbol kinds of the language server protocol, in the order
/// of their codes (the first has code 1): each name as `lsp_types::SymbolKind`
/// reads it.
pub open spec fn symbol_kind_names() -> Seq<Seq<char>> {
    seq![
        "File"@, "Module"@, "Namespace"@, "Package"@, "Class"@, "Method"@, "Property"@,
        "Field"@, "Constructor"@, "Enum"@, "Interface"@, "Function"@, "Variable"@,
        "Constant"@, "String"@, "Number"@, "Boolean"@, "Array"@, "Object"@, "Key"@,
        "Null"@, "EnumMember"@, "Struct"@, "Event"@, "Operator"@, "TypeParameter"@,
    ]
}

/// The first place at or after `i` where `names` holds `name`.
pub open spec fn first_place(names: Seq<Seq<char>>, name: Seq<char>, i: int) -> Option<int>
    decreases names.len() - i,
{
    if i < 0 || i >= names.len() {
        None
    } else if names[i] == name {
        Some(i)
    } else {
        first_place(names, name, i + 1)
    }
}

/// The code of the symbol kind named `name`: one more than its place among
/// [`symbol_kind_names`], or `None` where it is none of them.
pub open spec fn symbol_kind_code_of(name: Seq<char>) -> Option<u32> {
    match first_place(symbol_kind_names(), name, 0) {
        Some(i) => Some((i + 1) as u32),
        None => None,
    }
}

proof fn lemma_first_place(names: Seq<Seq<char>>, name: Seq<char>, i: int)
    requires
        0 <= i,
    ensures
        first_place(names, name, i) matches Some(k) ==> i <= k < names.len() && names[k] == name,
        first_place(names, name, i) is None <==> forall|j: int| i <= j < names.len() ==> names[j] != name,
    decreases names.len() - i,
{
    if i < names.len() {
        lemma_first_place(names, name, i + 1);
    }
}

fn symbol_kind_name_list() -> (r: Vec<String>)
    ensures
        views_of(r@) == symbol_kind_names(),
{
    let mut v: Vec<String> = Vec::new();
    v.push(string_of("File"));
    v.push(string_of("Module"));
    v.push(string_of("Namespace"));
    v.push(string_of("Package"));
    v.push(string_of("Class"));
    v.push(string_of("Method"));
    v.push(string_of("Property"));
    v.push(string_of("Field"));
    v.push(string_of("Constructor"));
    v.push(string_of("Enum"));
    v.push(string_of("Interface"));
    v.push(string_of("Function"));
    v.push(string_of("Variable"));
    v.push(string_of("Constant"));
    v.push(string_of("String"));
    v.push(string_of("Number"));
    v.push(string_of("Boolean"));
    v.push(string_of("Array"));
    v.push(string_of("Object"));
    v.push(string_of("Key"));
    v.push(string_of("Null"));
    v.push(string_of("EnumMember"));
    v.push(string_of("Struct"));
    v.push(string_of("Event"));
    v.push(string_of("Operator"));
    v.push(string_of("TypeParameter"));
    assert(views_of(v@) =~= symbol_kind_names());
    v
}

/// The code of the symbol kind named `name`, as `SymbolKind::try_from(&str)` of
/// the `lsp-types` crate finds it: the kind whose name is `name` exactly.
pub fn symbol_kind_code(name: &str) -> (r: Option<u32>)
    ensures
        r == symbol_kind_code_of(name@),
        r matches Some(c) ==> 1 <= c <= 26 && symbol_kind_names()[c - 1] == name@,
        r is None <==> !symbol_kind_names().contains(name@),
{
    proof {
        lemma_first_place(symbol_kind_names(), name@, 0);
    }
    let names = symbol_kind_name_list();
    let target = string_of(name);
    let mut i: usize = 0;
    while i < names.len()
        invariant
            i <= names.len(),
            views_of(names@) == symbol_kind_names(),
            target@ == name@,
            first_place(symbol_kind_names(), name@, i as int) == first_place(symbol_kind_names(), name@, 0),
        decreases names.len() - i,
    {
        assert(views_of(names@)[i as int] == names@[i as int]@);
        if names[i] == target {
            return Some((i + 1) as u32);
        }
        i = i + 1;
    }
    None
}

/// A query for workspace symbols.
#[derive(Debug)]
pub struct SymbolQuery {
    pub name: Option<String>,
    /// The code of the symbol kind (see [`symbol_kind_code_of`]).
    pub kind: Option<u32>,
    pub range: Option<SymbolRange>,
    pub file_name: Option<String>,
}

/// Whether a range text is acceptable: four comma-separated fields, each a `u32`.
pub open spec fn range_text_ok(text: Seq<char>) -> bool {
    let fields = comma_fields(text);
    fields.len() == 4 && is_u32_text(fields[0]) && is_u32_text(fields[1]) && is_u32_text(fields[2])
        && is_u32_text(fields[3])
}

/// Whether `range` is the range that `text` gives.
pub open spec fn range_of_text(text: Seq<char>, range: SymbolRange) -> bool {
    let fields = comma_fields(text);
    &&& parses_as_u32(fields[0], range.start.line)
    &&& parses_as_u32(fields[1], range.start.character)
    &&& parses_as_u32(fields[2], range.end.line)
    &&& parses_as_u32(fields[3], range.end.character)
}

/// The query for the given filters, once the kind has been put in PascalCase:
/// the kind is kept only when it names a symbol kind, and a range text that does
/// not give a range fails the query with the range's error.
pub fn query_from_pascal_kind(
    name: Option<String>,
    pascal_kind: Option<String>,
    range: Option<String>,
    file_name: Option<String>,
) -> (r: Result<SymbolQuery, String>)
    ensures
        match range {
            None => r is Ok,
            Some(t) => {
                if comma_fields(t@).len() != 4 {
                    r matches Err(m) && m@ == "Invalid range"@
                } else if !range_text_ok(t@) {
                    r matches Err(m) && m@ == "Failed to parse range"@
                } else {
                    r is Ok
                }
            },
        },
        r matches Ok(q) ==> {
            &&& q.name == name
            &&& q.file_name == file_name
            &&& q.kind == (match pascal_kind {
                Some(k) => symbol_kind_code_of(k@),
                None => None,
            })
            &&& (match range {
                None => q.range is None,
                Some(t) => q.range matches Some(rg) && range_of_text(t@, rg),
            })
        },
{
    let range = match range {
        None => None,
        Some(text) => match parse_symbol_range(text.as_str()) {
            Ok(rg) => Some(rg),
            Err(e) => {
                return Err(e);
            },
        },
    };
    let kind = match pascal_kind {
        Some(k) => symbol_kind_code(k.as_str()),
        None => None,
    };
    Ok(SymbolQuery { name, kind, range, file_name })
}

/// The query for the given filters: the kind is put in PascalCase and looked up
/// among the symbol kinds (see [`query_from_pascal_kind`]).
pub fn build_symbol_query(
    name: Option<String>,
    kind: Option<String>,
    range: Option<String>,
    file_name: Option<String>,
) -> (r: Result<SymbolQuery, String>)
    requires
        kind matches Some(k) ==> pascal_case_safe(k@),
    ensures
        match range {
            None => r is Ok,
            Some(t) => {
                if comma_fields(t@).len() != 4 {
                    r matches Err(m) && m@ == "Invalid range"@
                } else if !range_text_ok(t@) {
                    r matches Err(m) && m@ == "Failed to parse range"@
                } else {
                    r is Ok
                }
            },
        },
        r matches Ok(q) ==> {
            &&& q.name == name
            &&& q.file_name == file_name
            &&& q.kind == (match kind {
                Some(k) => symbol_kind_code_of(pascal_case_of(k@)),
                None => None,
            })
            &&& (match range {
                None => q.range is None,
                Some(t) => q.range matches Some(rg) && range_of_text(t@, rg),
            })
        },
{
    let pascal_kind = match kind {
        Some(k) => Some(to_pascal_case(k.as_str())),
        None => None,
    };
    query_from_pascal_kind(name, pascal_kind, range, file_name)
}

/// Whether `needle` occurs in `hay`.
pub open spec fn contains_text(hay: Seq<char>, needle: Seq<char>) -> bool {
    exists|i: int| 0 <= i <= hay.len() - needle.len() && #[trigger] hay.subrange(i, i + needle.len()) == needle
}

/// Whether `needle` occurs in `hay` at `i`.
fn occurs_at(hay: &Vec<char>, needle: &Vec<char>, i: usize) -> (r: bool)
    requires
        i + needle@.len() <= hay@.len(),
    ensures
        r == (hay@.subrange(i as int, i + needle@.len()) == needle@),
{
    let hay_len = hay.len();
    let mut j: usize = 0;
    while j < needle.len()
        invariant
            j <= needle@.len(),
            i + needle@.len() <= hay@.len(),
            hay_len == hay@.len(),
            forall|k: int| 0 <= k < j ==> hay@[i + k] == needle@[k],
        decreases needle.len() - j,
    {
        if hay[i + j] != needle[j] {
            assert(hay@.subrange(i as int, i + needle@.len())[j as int] != needle@[j as int]);
            return false;
        }
        j = j + 1;
    }
    assert(hay@.subrange(i as int, i + needle@.len()) =~= needle@);
    true
}

/// Whether `needle` occurs in `hay` (see [`contains_text`]).
pub fn text_contains(hay: &str, needle: &str) -> (r: bool)
    ensures
        r == contains_text(hay@, needle@),
{
    let h = chars_of(hay);
    let n = chars_of(needle);
    if n.len() > h.len() {
        return false;
    }
    let last = h.len() - n.len();
    let mut i: usize = 0;
    loop
        invariant
            h@ == hay@,
            n@ == needle@,
            last == h@.len() - n@.len(),
            i <= last,
            forall|k: int| 0 <= k < i ==> #[trigger] hay@.subrange(k, k + needle@.len()) != needle@,
        decreases last - i,
    {
        if occurs_at(&h, &n, i) {
            return true;
        }
        if i == last {
            return false;
        }
        i = i + 1;
    }
}

/// A symbol of the workspace as a query sees it: its name, kind code, range, the
/// name of its file and the file's path relative to the workspace.
#[derive(Debug)]
pub struct SymbolEntry {
    pub name: String,
    pub kind: u32,
    pub range: SymbolRange,
    pub file_name: String,
    pub relative_path: String,
}

/// Whether a symbol passes every filter that the query sets: its file (by name
/// or by relative path), a text that its name contains, its kind and its range.
pub open spec fn symbol_matches(s: SymbolEntry, q: SymbolQuery) -> bool {
    &&& (q.file_name matches Some(f) ==> s.file_name@ == f@ || s.relative_path@ == f@)
    &&& (q.name matches Some(n) ==> contains_text(s.name@, n@))
    &&& (q.kind matches Some(k) ==> s.kind == k)
    &&& (q.range matches Some(rg) ==> s.range == rg)
}

/// The symbols, in order, that match the query.
pub open spec fn matching_symbols(symbols: Seq<SymbolEntry>, q: SymbolQuery) -> Seq<SymbolEntry> {
    symbols.filter(|s: SymbolEntry| symbol_matches(s, q))
}

/// Whether one symbol passes the query's filters.
pub fn symbol_passes(s: &SymbolEntry, q: &SymbolQuery) -> (r: bool)
    ensures
        r == symbol_matches(*s, *q),
        r <==> {
            &&& (q.kind matches Some(k) ==> s.kind == k)
            &&& (q.range matches Some(rg) ==> s.range == rg)
            &&& (q.file_name matches Some(f) ==> s.file_name@ == f@ || s.relative_path@ == f@)
            &&& (q.name matches Some(n) ==> exists|i: int|
                0 <= i && i + n@.len() <= s.name@.len() && #[trigger] s.name@.subrange(i, i + n@.len()) == n@)
        },
{
    if let Some(f) = &q.file_name {
        if !(s.file_name == *f || s.relative_path == *f) {
            return false;
        }
    }
    if let Some(n) = &q.name {
        if !text_contains(s.name.as_str(), n.as_str()) {
            return false;
        }
    }
    if let Some(k) = q.kind {
        if s.kind != k {
            return false;
        }
    }
    if let Some(rg) = q.range {
        if s.range != rg {
            return false;
        }
    }
    true
}

/// The indices, in order, of the symbols that match the query.
pub fn query_symbols(symbols: &Vec<SymbolEntry>, q: &SymbolQuery) -> (r: Vec<usize>)
    ensures
        forall|k: int| 0 <= k < r@.len() ==> {
            let s = symbols@[#[trigger] r@[k] as int];
            &&& (q.kind matches Some(kind) ==> s.kind == kind)
            &&& (q.range matches Some(rg) ==> s.range == rg)
            &&& (q.file_name matches Some(f) ==> s.file_name@ == f@ || s.relative_path@ == f@)
            &&& (q.name matches Some(n) ==> exists|i: int|
                0 <= i && i + n@.len() <= s.name@.len() && #[trigger] s.name@.subrange(i, i + n@.len()) == n@)
        },
        r@.len() == matching_symbols(symbols@, *q).len(),
        forall|k: int| 0 <= k < r@.len() ==> (#[trigger] r@[k]) < symbols@.len() && symbols@[r@[k] as int]
            == matching_symbols(symbols@, *q)[k],
        forall|a: int, b: int| 0 <= a < b < r@.len() ==> r@[a] < r@[b],
{
    let ghost pred = |s: SymbolEntry| symbol_matches(s, *q);
    let mut out: Vec<usize> = Vec::new();
    let mut i: usize = 0;
    while i < symbols.len()
        invariant
            i <= symbols@.len(),
            pred == (|s: SymbolEntry| symbol_matches(s, *q)),
            out@.len() == symbols@.take(i as int).filter(pred).len(),
            forall|k: int| 0 <= k < out@.len() ==> (#[trigger] out@[k]) < i && symbols@[out@[k] as int]
                == symbols@.take(i as int).filter(pred)[k],
            forall|a: int, b: int| 0 <= a < b < out@.len() ==> out@[a] < out@[b],
        decreases symbols.len() - i,
    {
        proof {
            let prefix = symbols@.take(i as int);
            assert(symbols@.take(i + 1) =~= prefix.push(symbols@[i as int]));
            prefix.lemma_filter_push(symbols@[i as int], pred);
        }
        if symbol_passes(&symbols[i], q) {
            out.push(i);
        }
        i = i + 1;
    }
    assert(symbols@.take(symbols@.len() as int) =~= symbols@);
    out
}

/// A query returns exactly the symbols that pass each filter it sets: every
/// returned symbol has the query's kind, range, file (by name or relative path)
/// and a name that contains the query's name; and every symbol that passes them
/// all is returned.
pub proof fn law_query_returns_exactly_the_matching_symbols(symbols: Seq<SymbolEntry>, q: SymbolQuery)
    ensures
        forall|s: SymbolEntry| #[trigger] matching_symbols(symbols, q).contains(s) <==> {
            &&& symbols.contains(s)
            &&& (q.kind matches Some(k) ==> s.kind == k)
            &&& (q.range matches Some(rg) ==> s.range == rg)
            &&& (q.file_name matches Some(f) ==> s.file_name@ == f@ || s.relative_path@ == f@)
            &&& (q.name matches Some(n) ==> exists|i: int|
                0 <= i && i + n@.len() <= s.name@.len() && #[trigger] s.name@.subrange(i, i + n@.len()) == n@)
        },
{
    let pred = |s: SymbolEntry| symbol_matches(s, q);
    assert forall|s: SymbolEntry| #[trigger] matching_symbols(symbols, q).contains(s) <==> (symbols.contains(s)
        && pred(s)) by {
        symbols.filter_lemma(pred);
        if symbols.contains(s) && pred(s) {
            let j = choose|j: int| 0 <= j < symbols.len() && symbols[j] == s;
            assert(symbols.filter(pred).contains(symbols[j]));
        }
        if symbols.filter(pred).contains(s) {
            symbols.lemma_filter_contains_rev(pred, s);
            let j = choose|j: int| 0 <= j < symbols.filter(pred).len() && symbols.filter(pred)[j] == s;
            assert(pred(symbols.filter(pred)[j]));
        }
    }
    assert forall|s: SymbolEntry| #[trigger] pred(s) <==> {
        &&& (q.kind matches Some(k) ==> s.kind == k)
        &&& (q.range matches Some(rg) ==> s.range == rg)
        &&& (q.file_name matches Some(f) ==> s.file_name@ == f@ || s.relative_path@ == f@)
        &&& (q.name matches Some(n) ==> exists|i: int|
            0 <= i && i + n@.len() <= s.name@.len() && #[trigger] s.name@.subrange(i, i + n@.len()) == n@)
    } by {
        if let Some(n) = q.name {
            if contains_text(s.name@, n@) {
                let i = choose|i: int| 0 <= i <= s.name@.len() - n@.len() && #[trigger] s.name@.subrange(i, i + n@.len()) == n@;
                assert(0 <= i && i + n@.len() <= s.name@.len() && s.name@.subrange(i, i + n@.len()) == n@);
            }
        }
    }
}

} // verus!
