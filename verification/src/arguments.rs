//! Validation of the arguments of a tool call against the tool's declared
//! properties.
//!
//! Each property names an argument, says whether it is required and what type
//! it must have. Validation walks the properties in order and either accepts every
//! one of them, producing the validated value of each, or stops at the first
//! property whose argument is missing or ill-typed and reports why.
use vstd::prelude::*;
use crate::json::{
    JsonData, JsonNumber, JsonValue, copy_values, json_view, lemma_values_view_index, values_view,
};
use crate::text::{
    chars_of, concat_strs, decimal_string, decimal_text, signed_decimal_string, signed_decimal_text,
    string_from_chars, string_of, append_chars, strings_contain, views_of,
};

verus! {

/// Bounds on an integer property.
#[derive(Debug)]
pub struct IntegerProperties {
    pub minimum: Option<i64>,
    pub maximum: Option<i64>,
}

/// Item type and length bounds of an array property.
#[derive(Debug)]
pub struct ArrayProperties {
    pub items: Box<PropertyType>,
    pub min_items: Option<usize>,
    pub max_items: Option<usize>,
}

/// The type a property's argument must have.
#[derive(Debug)]
pub enum PropertyType {
    Boolean,
    Number,
    String,
    Pattern,
    Null,
    PathBuf,
    Integer { type_: String, properties: IntegerProperties },
    Array { type_: String, properties: ArrayProperties },
    Range { type_: String, properties: ArrayProperties },
}

/// One declared argument of a tool.
#[derive(Debug)]
pub struct FunctionProperty {
    pub name: String,
    pub required: bool,
    pub property_type: PropertyType,
    pub description: Option<String>,
    pub enum_values: Option<Vec<String>>,
}

impl IntegerProperties {
    /// An exact copy.
    pub fn copy(&self) -> (r: IntegerProperties)
        ensures
            r == *self,
    {
        IntegerProperties { minimum: self.minimum, maximum: self.maximum }
    }
}

impl ArrayProperties {
    /// An exact copy.
    pub fn copy(&self) -> (r: ArrayProperties)
        ensures
            r == *self,
        decreases self,
    {
        ArrayProperties {
            items: Box::new((*self.items).copy()),
            min_items: self.min_items,
            max_items: self.max_items,
        }
    }
}

impl PropertyType {
    /// An exact copy.
    pub fn copy(&self) -> (r: PropertyType)
        ensures
            r == *self,
        decreases self,
    {
        match self {
            PropertyType::Boolean => PropertyType::Boolean,
            PropertyType::Number => PropertyType::Number,
            PropertyType::String => PropertyType::String,
            PropertyType::Pattern => PropertyType::Pattern,
            PropertyType::Null => PropertyType::Null,
            PropertyType::PathBuf => PropertyType::PathBuf,
            PropertyType::Integer { type_, properties } => PropertyType::Integer {
                type_: type_.clone(),
                properties: properties.copy(),
            },
            PropertyType::Array { type_, properties } => PropertyType::Array {
                type_: type_.clone(),
                properties: properties.copy(),
            },
            PropertyType::Range { type_, properties } => PropertyType::Range {
                type_: type_.clone(),
                properties: properties.copy(),
            },
        }
    }
}

/// A compiled regular expression of the `regex` crate, seen here as an opaque value.
#[verifier::external_type_specification]
#[verifier::external_body]
pub struct ExRegex(regex::Regex);

/// The error text with which `regex::Regex::new` refuses `pattern`, or `None` when
/// it compiles the pattern.
pub uninterp spec fn regex_syntax_error(pattern: Seq<char>) -> Option<Seq<char>>;

/// Compiles `pattern` with `regex::Regex::new`. Trusted: the call succeeds exactly
/// when `regex_syntax_error` of the pattern is `None`, and otherwise fails with that
/// error's text (its `Display`). What the compiled regex matches is not stated.
#[verifier::external_body]
fn compile_regex(pattern: &str) -> (r: Result<regex::Regex, String>)
    ensures
        r is Ok <==> regex_syntax_error(pattern@) is None,
        r matches Err(m) ==> regex_syntax_error(pattern@) == Some(m@),
{
    match regex::Regex::new(pattern) {
        Ok(regex) => Ok(regex),
        Err(err) => Err(err.to_string()),
    }
}

/// A validated argument value.
#[derive(Debug)]
pub enum ValidatedArg {
    Bool(bool),
    Number(JsonNumber),
    String(String),
    Array(Vec<JsonValue>),
    Null,
    Integer(i64),
    Range(Vec<i64>),
    /// A compiled regular expression and the pattern it was compiled from.
    Pattern { source: String, regex: regex::Regex },
    /// A path that was checked to exist.
    Path(String),
}

/// What kind of value an argument was expected to be.
#[derive(Debug, PartialEq, Eq, Structural, Clone, Copy)]
pub enum Expected {
    Bool,
    Number,
    String,
    Array,
    Null,
    Integer,
    Range,
    RegexPattern,
    PathString,
}

/// Why validation refused the arguments.
#[derive(Debug)]
pub enum ArgumentError {
    InvalidType { name: String, expected: Expected, found: JsonValue },
    ArrayTooShort { name: String, minimum: usize, found: usize },
    ArrayTooLong { name: String, maximum: usize, found: usize },
    InvalidArrayItem { name: String, expected: PropertyType, found: JsonValue },
    BelowMinimum { name: String, minimum: i64, found: i64 },
    AboveMaximum { name: String, maximum: i64, found: i64 },
    RangeItemBelowMinimum { name: String, minimum: i64, found: i64 },
    RangeItemAboveMaximum { name: String, maximum: i64, found: i64 },
    InvalidRangeItem { name: String, found: JsonValue },
    InvalidPattern { name: String, error: String },
    WorkspaceRootRequired { name: String },
    PathDoesNotExist { name: String, path: String },
    MissingRequired { name: String },
}

/// The content of a validated argument.
pub enum ArgData {
    Bool(bool),
    Number(Option<i64>, Seq<char>),
    Str(Seq<char>),
    Array(Seq<JsonData>),
    Null,
    Integer(i64),
    Range(Seq<i64>),
    Pattern(Seq<char>),
    Path(Seq<char>),
}

/// The content of a validation error.
pub enum ErrData {
    InvalidType(Seq<char>, Expected, JsonData),
    ArrayTooShort(Seq<char>, usize, nat),
    ArrayTooLong(Seq<char>, usize, nat),
    InvalidArrayItem(Seq<char>, PropertyType, JsonData),
    BelowMinimum(Seq<char>, i64, i64),
    AboveMaximum(Seq<char>, i64, i64),
    RangeItemBelowMinimum(Seq<char>, i64, i64),
    RangeItemAboveMaximum(Seq<char>, i64, i64),
    InvalidRangeItem(Seq<char>, JsonData),
    InvalidPattern(Seq<char>, Seq<char>),
    WorkspaceRootRequired(Seq<char>),
    PathDoesNotExist(Seq<char>, Seq<char>),
    MissingRequired(Seq<char>),
}

/// The outcome of validating one property.
pub enum Verdict {
    Accepted(Option<ArgData>),
    Rejected(ErrData),
}

impl ValidatedArg {
    pub open spec fn data(self) -> ArgData {
        match self {
            ValidatedArg::Bool(b) => ArgData::Bool(b),
            ValidatedArg::Number(n) => ArgData::Number(n.as_i64, n.text@),
            ValidatedArg::String(s) => ArgData::Str(s@),
            ValidatedArg::Array(items) => ArgData::Array(values_view(items@)),
            ValidatedArg::Null => ArgData::Null,
            ValidatedArg::Integer(x) => ArgData::Integer(x),
            ValidatedArg::Range(xs) => ArgData::Range(xs@),
            ValidatedArg::Pattern { source, .. } => ArgData::Pattern(source@),
            ValidatedArg::Path(p) => ArgData::Path(p@),
        }
    }
}

/// The content of an optional validated argument.
pub open spec fn opt_data(a: Option<ValidatedArg>) -> Option<ArgData> {
    match a {
        Some(v) => Some(v.data()),
        None => None,
    }
}

impl ArgumentError {
    pub open spec fn data(self) -> ErrData {
        match self {
            ArgumentError::InvalidType { name, expected, found } => ErrData::InvalidType(
                name@,
                expected,
                found@,
            ),
            ArgumentError::ArrayTooShort { name, minimum, found } => ErrData::ArrayTooShort(
                name@,
                minimum,
                found as nat,
            ),
            ArgumentError::ArrayTooLong { name, maximum, found } => ErrData::ArrayTooLong(
                name@,
                maximum,
                found as nat,
            ),
            ArgumentError::InvalidArrayItem { name, expected, found } => ErrData::InvalidArrayItem(
                name@,
                expected,
                found@,
            ),
            ArgumentError::BelowMinimum { name, minimum, found } => ErrData::BelowMinimum(
                name@,
                minimum,
                found,
            ),
            ArgumentError::AboveMaximum { name, maximum, found } => ErrData::AboveMaximum(
                name@,
                maximum,
                found,
            ),
            ArgumentError::RangeItemBelowMinimum {
                name,
                minimum,
                found,
            } => ErrData::RangeItemBelowMinimum(name@, minimum, found),
            ArgumentError::RangeItemAboveMaximum {
                name,
                maximum,
                found,
            } => ErrData::RangeItemAboveMaximum(name@, maximum, found),
            ArgumentError::InvalidRangeItem { name, found } => ErrData::InvalidRangeItem(
                name@,
                found@,
            ),
            ArgumentError::InvalidPattern { name, error } => ErrData::InvalidPattern(
                name@,
                error@,
            ),
            ArgumentError::WorkspaceRootRequired { name } => ErrData::WorkspaceRootRequired(name@),
            ArgumentError::PathDoesNotExist { name, path } => ErrData::PathDoesNotExist(
                name@,
                path@,
            ),
            ArgumentError::MissingRequired { name } => ErrData::MissingRequired(name@),
        }
    }
}

/// Whether an exec outcome is the one a verdict describes.
pub open spec fn outcome_matches(r: Result<Option<ValidatedArg>, ArgumentError>, v: Verdict) -> bool {
    match (r, v) {
        (Ok(a), Verdict::Accepted(d)) => opt_data(a) == d,
        (Err(e), Verdict::Rejected(d)) => e.data() == d,
        _ => false,
    }
}

/// `path` relative to `root`, as `Path::join` forms it on Unix: an absolute path
/// stays as it is, otherwise a separator is put between a non-empty root that does
/// not end in one and the path.
pub open spec fn resolve_path(root: Seq<char>, path: Seq<char>) -> Seq<char> {
    if path.len() > 0 && path[0] == '/' {
        path
    } else if root.len() == 0 || root.last() == '/' {
        root + path
    } else {
        root + seq!['/'] + path
    }
}

/// The first argument named `name`.
pub open spec fn lookup(args: Seq<(String, JsonValue)>, name: Seq<char>) -> Option<JsonValue>
    decreases args.len(),
{
    if args.len() == 0 {
        None
    } else if args[0].0@ == name {
        Some(args[0].1)
    } else {
        lookup(args.drop_first(), name)
    }
}

/// Whether a JSON value has the kind a property type asks of array items.
pub open spec fn valid_item(v: JsonValue, t: PropertyType) -> bool {
    match (v, t) {
        (JsonValue::Bool(_), PropertyType::Boolean) => true,
        (JsonValue::Number(_), PropertyType::Number) => true,
        (JsonValue::String(_), PropertyType::String) => true,
        (JsonValue::Array(_), PropertyType::Array { .. }) => true,
        (JsonValue::Null, PropertyType::Null) => true,
        (JsonValue::Number(_), PropertyType::Integer { .. }) => true,
        (JsonValue::String(_), PropertyType::Pattern) => true,
        (JsonValue::Array(_), PropertyType::Range { .. }) => true,
        (JsonValue::String(_), PropertyType::PathBuf) => true,
        _ => false,
    }
}

/// The first index at or after `i` whose item is not of type `t`.
pub open spec fn first_invalid_item(items: Seq<JsonValue>, t: PropertyType, i: nat) -> Option<nat>
    decreases items.len() - i,
{
    if i >= items.len() {
        None
    } else if !valid_item(items[i as int], t) {
        Some(i)
    } else {
        first_invalid_item(items, t, i + 1)
    }
}

/// Why a range item is refused, if it is.
pub open spec fn range_item_failure(
    name: Seq<char>,
    v: JsonValue,
    minimum: Option<i64>,
    maximum: Option<i64>,
) -> Option<ErrData> {
    match v {
        JsonValue::Number(n) if n.as_i64 is Some => {
            let x = n.as_i64->0;
            if minimum is Some && x < minimum->0 {
                Some(ErrData::RangeItemBelowMinimum(name, minimum->0, x))
            } else if maximum is Some && x > maximum->0 {
                Some(ErrData::RangeItemAboveMaximum(name, maximum->0, x))
            } else {
                None
            }
        },
        _ => Some(ErrData::InvalidRangeItem(name, v@)),
    }
}

/// The first refusal among the range items at or after `i`.
pub open spec fn first_range_failure(
    name: Seq<char>,
    items: Seq<JsonValue>,
    minimum: Option<i64>,
    maximum: Option<i64>,
    i: nat,
) -> Option<ErrData>
    decreases items.len() - i,
{
    if i >= items.len() {
        None
    } else if range_item_failure(name, items[i as int], minimum, maximum) is Some {
        range_item_failure(name, items[i as int], minimum, maximum)
    } else {
        first_range_failure(name, items, minimum, maximum, i + 1)
    }
}

/// The integers of a list of integer-valued numbers.
pub open spec fn range_values(items: Seq<JsonValue>) -> Seq<i64> {
    items.map_values(|v: JsonValue| v->Number_0.as_i64->0)
}

/// Length checks shared by array and range properties.
pub open spec fn length_failure(name: Seq<char>, props: ArrayProperties, len: nat) -> Option<
    ErrData,
> {
    if props.min_items is Some && len < props.min_items->0 {
        Some(ErrData::ArrayTooShort(name, props.min_items->0, len))
    } else if props.max_items is Some && len > props.max_items->0 {
        Some(ErrData::ArrayTooLong(name, props.max_items->0, len))
    } else {
        None
    }
}

/// Verdict on an array argument.
pub open spec fn array_verdict(name: Seq<char>, props: ArrayProperties, items: Seq<JsonValue>) -> Verdict {
    if length_failure(name, props, items.len()) is Some {
        Verdict::Rejected(length_failure(name, props, items.len())->0)
    } else {
        match first_invalid_item(items, *props.items, 0) {
            Some(k) => Verdict::Rejected(
                ErrData::InvalidArrayItem(name, *props.items, json_view(items[k as int])),
            ),
            None => Verdict::Accepted(Some(ArgData::Array(values_view(items)))),
        }
    }
}

/// Verdict on a range argument: an array of bounded integers.
pub open spec fn range_verdict(name: Seq<char>, props: ArrayProperties, items: Seq<JsonValue>) -> Verdict {
    if length_failure(name, props, items.len()) is Some {
        Verdict::Rejected(length_failure(name, props, items.len())->0)
    } else {
        match *props.items {
            PropertyType::Integer { properties, .. } => match first_range_failure(
                name,
                items,
                properties.minimum,
                properties.maximum,
                0,
            ) {
                Some(e) => Verdict::Rejected(e),
                None => Verdict::Accepted(Some(ArgData::Range(range_values(items)))),
            },
            _ => if items.len() == 0 {
                Verdict::Accepted(Some(ArgData::Range(Seq::empty())))
            } else {
                Verdict::Rejected(ErrData::InvalidRangeItem(name, json_view(items[0])))
            },
        }
    }
}

/// Verdict on an integer argument.
pub open spec fn integer_verdict(name: Seq<char>, props: IntegerProperties, v: JsonValue) -> Verdict {
    match v {
        JsonValue::Number(n) if n.as_i64 is Some => {
            let x = n.as_i64->0;
            if props.minimum is Some && x < props.minimum->0 {
                Verdict::Rejected(ErrData::BelowMinimum(name, props.minimum->0, x))
            } else if props.maximum is Some && x > props.maximum->0 {
                Verdict::Rejected(ErrData::AboveMaximum(name, props.maximum->0, x))
            } else {
                Verdict::Accepted(Some(ArgData::Integer(x)))
            }
        },
        _ => Verdict::Rejected(ErrData::InvalidType(name, Expected::Integer, json_view(v))),
    }
}

/// The verdict on one property, given its argument (if any), the workspace root
/// (if any) and the paths known to exist.
pub open spec fn verdict(
    p: FunctionProperty,
    arg: Option<JsonValue>,
    root: Option<Seq<char>>,
    existing: Seq<Seq<char>>,
) -> Verdict {
    let name = p.name@;
    match arg {
        None => if p.required {
            Verdict::Rejected(ErrData::MissingRequired(name))
        } else {
            Verdict::Accepted(None)
        },
        Some(v) => match p.property_type {
            PropertyType::Boolean => match v {
                JsonValue::Bool(b) => Verdict::Accepted(Some(ArgData::Bool(b))),
                _ => Verdict::Rejected(ErrData::InvalidType(name, Expected::Bool, json_view(v))),
            },
            PropertyType::Number => match v {
                JsonValue::Number(n) => Verdict::Accepted(
                    Some(ArgData::Number(n.as_i64, n.text@)),
                ),
                _ => Verdict::Rejected(ErrData::InvalidType(name, Expected::Number, json_view(v))),
            },
            PropertyType::String => match v {
                JsonValue::String(s) => Verdict::Accepted(Some(ArgData::Str(s@))),
                _ => Verdict::Rejected(ErrData::InvalidType(name, Expected::String, json_view(v))),
            },
            PropertyType::Array { properties, .. } => match v {
                JsonValue::Array(items) => array_verdict(name, properties, items@),
                _ => Verdict::Rejected(ErrData::InvalidType(name, Expected::Array, json_view(v))),
            },
            PropertyType::Null => match v {
                JsonValue::Null => Verdict::Accepted(Some(ArgData::Null)),
                _ => Verdict::Rejected(ErrData::InvalidType(name, Expected::Null, json_view(v))),
            },
            PropertyType::Integer { properties, .. } => integer_verdict(name, properties, v),
            PropertyType::Range { properties, .. } => match v {
                JsonValue::Array(items) => range_verdict(name, properties, items@),
                _ => Verdict::Rejected(ErrData::InvalidType(name, Expected::Range, json_view(v))),
            },
            PropertyType::Pattern => match v {
                JsonValue::String(s) => match regex_syntax_error(s@) {
                    None => Verdict::Accepted(Some(ArgData::Pattern(s@))),
                    Some(e) => Verdict::Rejected(ErrData::InvalidPattern(name, e)),
                },
                _ => Verdict::Rejected(
                    ErrData::InvalidType(name, Expected::RegexPattern, json_view(v)),
                ),
            },
            PropertyType::PathBuf => match root {
                None => Verdict::Rejected(ErrData::WorkspaceRootRequired(name)),
                Some(r) => match v {
                    JsonValue::String(s) => {
                        let path = resolve_path(r, s@);
                        if existing.contains(path) {
                            Verdict::Accepted(Some(ArgData::Path(path)))
                        } else {
                            Verdict::Rejected(ErrData::PathDoesNotExist(name, path))
                        }
                    },
                    _ => Verdict::Rejected(
                        ErrData::InvalidType(name, Expected::PathString, json_view(v)),
                    ),
                },
            },
        },
    }
}

/// The result of validating `args` against `props`: each property's name and
/// validated value in order, or the refusal of the first property that fails.
pub open spec fn validation(
    args: Seq<(String, JsonValue)>,
    props: Seq<FunctionProperty>,
    root: Option<Seq<char>>,
    existing: Seq<Seq<char>>,
) -> Result<Seq<(Seq<char>, Option<ArgData>)>, ErrData>
    decreases props.len(),
{
    if props.len() == 0 {
        Ok(Seq::empty())
    } else {
        match validation(args, props.drop_last(), root, existing) {
            Err(e) => Err(e),
            Ok(out) => {
                let p = props.last();
                match verdict(p, lookup(args, p.name@), root, existing) {
                    Verdict::Accepted(a) => Ok(out.push((p.name@, a))),
                    Verdict::Rejected(e) => Err(e),
                }
            },
        }
    }
}

/// The content of validated arguments.
pub open spec fn validated_data(v: Seq<(String, Option<ValidatedArg>)>) -> Seq<(Seq<char>, Option<ArgData>)> {
    v.map_values(|e: (String, Option<ValidatedArg>)| (e.0@, opt_data(e.1)))
}

/// The view of an optional root.
pub open spec fn root_view(root: Option<&str>) -> Option<Seq<char>> {
    match root {
        Some(r) => Some(r@),
        None => None,
    }
}

/// The argument an optional reference points to.
pub open spec fn opt_deref(arg: Option<&JsonValue>) -> Option<JsonValue> {
    match arg {
        Some(v) => Some(*v),
        None => None,
    }
}

/// The first argument named `name`, as [`lookup`] describes.
pub fn lookup_argument<'a>(args: &'a Vec<(String, JsonValue)>, name: &String) -> (r: Option<
    &'a JsonValue,
>)
    ensures
        opt_deref(r) == lookup(args@, name@),
{
    let mut i: usize = 0;
    assert(args@.skip(0) =~= args@);
    while i < args.len()
        invariant
            i <= args.len(),
            lookup(args@.skip(i as int), name@) == lookup(args@, name@),
        decreases args.len() - i,
    {
        assert(args@.skip(i as int)[0] == args@[i as int]);
        if args[i].0 == *name {
            return Some(&args[i].1);
        }
        assert(args@.skip(i as int).drop_first() =~= args@.skip(i + 1));
        i = i + 1;
    }
    None
}

/// Whether `v` has the kind `t` asks of array items, as [`valid_item`] describes.
pub fn is_valid_type(value: &JsonValue, expected_type: &PropertyType) -> (r: bool)
    ensures
        r == valid_item(*value, *expected_type),
{
    match (value, expected_type) {
        (JsonValue::Bool(_), PropertyType::Boolean) => true,
        (JsonValue::Number(_), PropertyType::Number) => true,
        (JsonValue::String(_), PropertyType::String) => true,
        (JsonValue::Array(_), PropertyType::Array { .. }) => true,
        (JsonValue::Null, PropertyType::Null) => true,
        (JsonValue::Number(_), PropertyType::Integer { .. }) => true,
        (JsonValue::String(_), PropertyType::Pattern) => true,
        (JsonValue::Array(_), PropertyType::Range { .. }) => true,
        (JsonValue::String(_), PropertyType::PathBuf) => true,
        _ => false,
    }
}

/// The length refusal of an array or range argument, if any.
fn check_length(name: &String, props: &ArrayProperties, len: usize) -> (r: Option<ArgumentError>)
    ensures
        match r {
            Some(e) => length_failure(name@, *props, len as nat) == Some(e.data()),
            None => length_failure(name@, *props, len as nat) is None,
        },
{
    if let Some(min) = props.min_items {
        if len < min {
            return Some(ArgumentError::ArrayTooShort { name: name.clone(), minimum: min, found: len });
        }
    }
    if let Some(max) = props.max_items {
        if len > max {
            return Some(ArgumentError::ArrayTooLong { name: name.clone(), maximum: max, found: len });
        }
    }
    None
}

/// Validates an array argument.
fn check_array(name: &String, props: &ArrayProperties, items: &Vec<JsonValue>) -> (r: Result<
    Option<ValidatedArg>,
    ArgumentError,
>)
    ensures
        outcome_matches(r, array_verdict(name@, *props, items@)),
{
    if let Some(e) = check_length(name, props, items.len()) {
        return Err(e);
    }
    let mut i: usize = 0;
    while i < items.len()
        invariant
            i <= items.len(),
            length_failure(name@, *props, items@.len()) is None,
            first_invalid_item(items@, *props.items, i as nat) == first_invalid_item(
                items@,
                *props.items,
                0,
            ),
        decreases items.len() - i,
    {
        if !is_valid_type(&items[i], &props.items) {
            assert(!valid_item(items@[i as int], *props.items));
            assert(first_invalid_item(items@, *props.items, i as nat) == Some(i as nat));
            let e = ArgumentError::InvalidArrayItem {
                name: name.clone(),
                expected: (*props.items).copy(),
                found: items[i].copy(),
            };
            assert(e->InvalidArrayItem_found@ == items@[i as int]@);
            return Err(e);
        }
        i = i + 1;
    }
    Ok(Some(ValidatedArg::Array(copy_values(items))))
}

/// Validates a range argument: every item an integer within the item bounds.
fn check_range(name: &String, props: &ArrayProperties, items: &Vec<JsonValue>) -> (r: Result<
    Option<ValidatedArg>,
    ArgumentError,
>)
    ensures
        outcome_matches(r, range_verdict(name@, *props, items@)),
{
    if let Some(e) = check_length(name, props, items.len()) {
        return Err(e);
    }
    match &*props.items {
        PropertyType::Integer { properties, .. } => {
            let ghost minimum = properties.minimum;
            let ghost maximum = properties.maximum;
            let mut values: Vec<i64> = Vec::new();
            let mut i: usize = 0;
            while i < items.len()
                invariant
                    i <= items.len(),
                    length_failure(name@, *props, items@.len()) is None,
                    *props.items matches PropertyType::Integer { properties: q, .. } && q == *properties,
                    minimum == properties.minimum,
                    maximum == properties.maximum,
                    first_range_failure(name@, items@, minimum, maximum, i as nat)
                        == first_range_failure(name@, items@, minimum, maximum, 0),
                    values@ == range_values(items@.take(i as int)),
                decreases items.len() - i,
            {
                assert(items@.take(i + 1) =~= items@.take(i as int).push(items@[i as int]));
                match &items[i] {
                    JsonValue::Number(n) => {
                        match n.as_i64 {
                            Some(x) => {
                                if let Some(min) = properties.minimum {
                                    if x < min {
                                        return Err(
                                            ArgumentError::RangeItemBelowMinimum {
                                                name: name.clone(),
                                                minimum: min,
                                                found: x,
                                            },
                                        );
                                    }
                                }
                                if let Some(max) = properties.maximum {
                                    if x > max {
                                        return Err(
                                            ArgumentError::RangeItemAboveMaximum {
                                                name: name.clone(),
                                                maximum: max,
                                                found: x,
                                            },
                                        );
                                    }
                                }
                                values.push(x);
                            },
                            None => {
                                return Err(
                                    ArgumentError::InvalidRangeItem {
                                        name: name.clone(),
                                        found: items[i].copy(),
                                    },
                                );
                            },
                        }
                    },
                    _ => {
                        return Err(
                            ArgumentError::InvalidRangeItem {
                                name: name.clone(),
                                found: items[i].copy(),
                            },
                        );
                    },
                }
                i = i + 1;
            }
            assert(items@.take(items@.len() as int) =~= items@);
            Ok(Some(ValidatedArg::Range(values)))
        },
        _ => {
            if items.len() == 0 {
                let empty: Vec<i64> = Vec::new();
                Ok(Some(ValidatedArg::Range(empty)))
            } else {
                Err(ArgumentError::InvalidRangeItem { name: name.clone(), found: items[0].copy() })
            }
        },
    }
}

/// Validates an integer argument.
fn check_integer(name: &String, props: &IntegerProperties, value: &JsonValue) -> (r: Result<
    Option<ValidatedArg>,
    ArgumentError,
>)
    ensures
        outcome_matches(r, integer_verdict(name@, *props, *value)),
{
    if let JsonValue::Number(n) = value {
        if let Some(x) = n.as_i64 {
            if let Some(min) = props.minimum {
                if x < min {
                    return Err(ArgumentError::BelowMinimum { name: name.clone(), minimum: min, found: x });
                }
            }
            if let Some(max) = props.maximum {
                if x > max {
                    return Err(ArgumentError::AboveMaximum { name: name.clone(), maximum: max, found: x });
                }
            }
            return Ok(Some(ValidatedArg::Integer(x)));
        }
    }
    Err(ArgumentError::InvalidType { name: name.clone(), expected: Expected::Integer, found: value.copy() })
}

/// `path` joined onto `root`, as [`resolve_path`] describes.
pub fn resolve_path_under(root: &str, path: &str) -> (r: String)
    ensures
        r@ == resolve_path(root@, path@),
{
    let root_chars = chars_of(root);
    let path_chars = chars_of(path);
    let mut out: Vec<char> = Vec::new();
    if path_chars.len() > 0 && path_chars[0] == '/' {
        append_chars(&mut out, path_chars.as_slice());
    } else if root_chars.len() == 0 || root_chars[root_chars.len() - 1] == '/' {
        append_chars(&mut out, root_chars.as_slice());
        append_chars(&mut out, path_chars.as_slice());
    } else {
        append_chars(&mut out, root_chars.as_slice());
        out.push('/');
        append_chars(&mut out, path_chars.as_slice());
        assert(out@ =~= root@ + seq!['/'] + path@);
    }
    string_from_chars(out.as_slice())
}

/// The outcome for a pattern argument `source` of property `name`, given what
/// compiling it gave: the compiled pattern, or the compiler's error text.
pub fn pattern_outcome(name: &String, source: &String, compiled: Result<regex::Regex, String>) -> (r:
    Result<Option<ValidatedArg>, ArgumentError>)
    ensures
        match compiled {
            Ok(_) => r matches Ok(Some(ValidatedArg::Pattern { source: s, .. })) && s@ == source@,
            Err(m) => r matches Err(ArgumentError::InvalidPattern { name: n, error: e }) && n@ == name@
                && e@ == m@,
        },
{
    match compiled {
        Ok(regex) => Ok(Some(ValidatedArg::Pattern { source: source.clone(), regex })),
        Err(error) => Err(ArgumentError::InvalidPattern { name: name.clone(), error }),
    }
}

/// Validates one property against its argument.
fn check_property(
    p: &FunctionProperty,
    arg: Option<&JsonValue>,
    root: Option<&str>,
    existing: &Vec<String>,
) -> (r: Result<Option<ValidatedArg>, ArgumentError>)
    ensures
        outcome_matches(r, verdict(*p, opt_deref(arg), root_view(root), views_of(existing@))),
{
    let name = &p.name;
    match arg {
        None => {
            if p.required {
                Err(ArgumentError::MissingRequired { name: name.clone() })
            } else {
                Ok(None)
            }
        },
        Some(value) => match &p.property_type {
            PropertyType::Boolean => match value {
                JsonValue::Bool(b) => Ok(Some(ValidatedArg::Bool(*b))),
                _ => Err(ArgumentError::InvalidType { name: name.clone(), expected: Expected::Bool, found: value.copy() }),
            },
            PropertyType::Number => match value {
                JsonValue::Number(n) => Ok(Some(ValidatedArg::Number(n.copy()))),
                _ => Err(ArgumentError::InvalidType { name: name.clone(), expected: Expected::Number, found: value.copy() }),
            },
            PropertyType::String => match value {
                JsonValue::String(s) => Ok(Some(ValidatedArg::String(s.clone()))),
                _ => Err(ArgumentError::InvalidType { name: name.clone(), expected: Expected::String, found: value.copy() }),
            },
            PropertyType::Array { properties, .. } => match value {
                JsonValue::Array(items) => check_array(name, properties, items),
                _ => Err(ArgumentError::InvalidType { name: name.clone(), expected: Expected::Array, found: value.copy() }),
            },
            PropertyType::Null => {
                if value.is_null() {
                    Ok(Some(ValidatedArg::Null))
                } else {
                    Err(ArgumentError::InvalidType { name: name.clone(), expected: Expected::Null, found: value.copy() })
                }
            },
            PropertyType::Integer { properties, .. } => check_integer(name, properties, value),
            PropertyType::Range { properties, .. } => match value {
                JsonValue::Array(items) => check_range(name, properties, items),
                _ => Err(ArgumentError::InvalidType { name: name.clone(), expected: Expected::Range, found: value.copy() }),
            },
            PropertyType::Pattern => match value {
                JsonValue::String(s) => pattern_outcome(name, s, compile_regex(s.as_str())),
                _ => Err(ArgumentError::InvalidType { name: name.clone(), expected: Expected::RegexPattern, found: value.copy() }),
            },
            PropertyType::PathBuf => match root {
                None => Err(ArgumentError::WorkspaceRootRequired { name: name.clone() }),
                Some(r) => match value {
                    JsonValue::String(s) => {
                        let path = resolve_path_under(r, s.as_str());
                        if strings_contain(existing, &path) {
                            Ok(Some(ValidatedArg::Path(path)))
                        } else {
                            Err(ArgumentError::PathDoesNotExist { name: name.clone(), path })
                        }
                    },
                    _ => Err(ArgumentError::InvalidType { name: name.clone(), expected: Expected::PathString, found: value.copy() }),
                },
            },
        },
    }
}

/// Once a prefix of the properties is refused, the whole list is refused the same way.
proof fn lemma_validation_prefix_error(
    args: Seq<(String, JsonValue)>,
    props: Seq<FunctionProperty>,
    n: int,
    root: Option<Seq<char>>,
    existing: Seq<Seq<char>>,
)
    requires
        0 <= n <= props.len(),
        validation(args, props.take(n), root, existing) is Err,
    ensures
        validation(args, props, root, existing) == validation(args, props.take(n), root, existing),
    decreases props.len(),
{
    if n < props.len() {
        assert(props.drop_last().take(n) =~= props.take(n));
        lemma_validation_prefix_error(args, props.drop_last(), n, root, existing);
    } else {
        assert(props.take(n) =~= props);
    }
}

/// Validates `arguments` (an argument name and its JSON value, each name at most
/// once) against `properties`, in order.
///
/// A path property is resolved against `workspace_root` (see [`resolve_path`]) and
/// accepted only if the resolved path is in `existing_paths`, the paths the caller
/// found to exist (see [`path_candidates`]).
pub fn validate_arguments(
    arguments: Vec<(String, JsonValue)>,
    properties: &[FunctionProperty],
    workspace_root: Option<&str>,
    existing_paths: &Vec<String>,
) -> (r: Result<Vec<(String, Option<ValidatedArg>)>, ArgumentError>)
    ensures
        match r {
            Ok(v) => validation(
                arguments@,
                properties@,
                root_view(workspace_root),
                views_of(existing_paths@),
            ) == Ok::<_, ErrData>(validated_data(v@)),
            Err(e) => validation(
                arguments@,
                properties@,
                root_view(workspace_root),
                views_of(existing_paths@),
            ) == Err::<Seq<(Seq<char>, Option<ArgData>)>, _>(e.data()),
        },
{
    let ghost args = arguments@;
    let ghost props = properties@;
    let ghost root = root_view(workspace_root);
    let ghost existing = views_of(existing_paths@);
    let mut validated: Vec<(String, Option<ValidatedArg>)> = Vec::new();
    let mut i: usize = 0;
    assert(props.take(0) =~= Seq::<FunctionProperty>::empty());
    assert(validated_data(validated@) =~= Seq::empty());
    while i < properties.len()
        invariant
            i <= properties.len(),
            args == arguments@,
            props == properties@,
            root == root_view(workspace_root),
            existing == views_of(existing_paths@),
            validation(args, props.take(i as int), root, existing) == Ok::<_, ErrData>(
                validated_data(validated@),
            ),
        decreases properties.len() - i,
    {
        let property = &properties[i];
        let arg = lookup_argument(&arguments, &property.name);
        let outcome = check_property(property, arg, workspace_root, existing_paths);
        assert(props.take(i + 1).drop_last() =~= props.take(i as int));
        assert(props.take(i + 1).last() == props[i as int]);
        match outcome {
            Ok(value) => {
                let ghost before = validated@;
                validated.push((property.name.clone(), value));
                assert(validated_data(validated@) =~= validated_data(before).push(
                    (props[i as int].name@, opt_data(validated@.last().1)),
                ));
            },
            Err(e) => {
                proof {
                    lemma_validation_prefix_error(args, props, i + 1, root, existing);
                }
                return Err(e);
            },
        }
        i = i + 1;
    }
    assert(props.take(props.len() as int) =~= props);
    Ok(validated)
}

/// The value recorded last under `key`, as a map keyed by name holds it (each
/// entry overwrites an earlier one with the same name).
pub open spec fn last_entry(v: Seq<(Seq<char>, Option<ArgData>)>, key: Seq<char>) -> Option<
    Option<ArgData>,
>
    decreases v.len(),
{
    if v.len() == 0 {
        None
    } else if v.last().0 == key {
        Some(v.last().1)
    } else {
        last_entry(v.drop_last(), key)
    }
}

/// The validated value of argument `key`, if it was given: `None` both when no
/// property is named `key` and when the argument was optional and absent.
pub fn get_validated_argument<'a>(
    validated_arguments: &'a Vec<(String, Option<ValidatedArg>)>,
    key: &str,
) -> (r: Option<&'a ValidatedArg>)
    ensures
        match r {
            Some(a) => last_entry(validated_data(validated_arguments@), key@) == Some(
                Some(a.data()),
            ),
            None => !(last_entry(validated_data(validated_arguments@), key@) matches Some(Some(_))),
        },
{
    let ghost data = validated_data(validated_arguments@);
    let key_string = string_from_chars(chars_of(key).as_slice());
    let mut i: usize = validated_arguments.len();
    assert(data.take(i as int) =~= data);
    while i > 0
        invariant
            i <= validated_arguments.len(),
            data == validated_data(validated_arguments@),
            key_string@ == key@,
            last_entry(data.take(i as int), key@) == last_entry(data, key@),
        decreases i,
    {
        assert(data.take(i as int).drop_last() =~= data.take(i - 1));
        assert(data.take(i as int).last() == data[i - 1]);
        let entry = &validated_arguments[i - 1];
        if entry.0 == key_string {
            return match &entry.1 {
                Some(a) => Some(a),
                None => None,
            };
        }
        i = i - 1;
    }
    None
}

/// The paths whose existence validation asks about: for each path property, in
/// order, the path its string argument names, resolved against the root.
pub open spec fn path_candidates_of(
    args: Seq<(String, JsonValue)>,
    props: Seq<FunctionProperty>,
    root: Option<Seq<char>>,
) -> Seq<Seq<char>>
    decreases props.len(),
{
    if props.len() == 0 {
        Seq::empty()
    } else {
        let earlier = path_candidates_of(args, props.drop_last(), root);
        let p = props.last();
        match (p.property_type, root, lookup(args, p.name@)) {
            (PropertyType::PathBuf, Some(r), Some(JsonValue::String(s))) => earlier.push(
                resolve_path(r, s@),
            ),
            _ => earlier,
        }
    }
}

/// The paths a caller has to check on disk before [`validate_arguments`]: see
/// [`path_candidates_of`].
pub fn path_candidates(
    arguments: &Vec<(String, JsonValue)>,
    properties: &[FunctionProperty],
    workspace_root: Option<&str>,
) -> (r: Vec<String>)
    ensures
        views_of(r@) == path_candidates_of(arguments@, properties@, root_view(workspace_root)),
{
    let ghost props = properties@;
    let ghost root = root_view(workspace_root);
    let mut out: Vec<String> = Vec::new();
    let mut i: usize = 0;
    assert(props.take(0) =~= Seq::<FunctionProperty>::empty());
    assert(views_of(out@) =~= Seq::empty());
    while i < properties.len()
        invariant
            i <= properties.len(),
            props == properties@,
            root == root_view(workspace_root),
            views_of(out@) == path_candidates_of(arguments@, props.take(i as int), root),
        decreases properties.len() - i,
    {
        let property = &properties[i];
        assert(props.take(i + 1).drop_last() =~= props.take(i as int));
        assert(props.take(i + 1).last() == props[i as int]);
        if let PropertyType::PathBuf = property.property_type {
            if let Some(r) = workspace_root {
                if let Some(JsonValue::String(s)) = lookup_argument(arguments, &property.name) {
                    let ghost before = out@;
                    out.push(resolve_path_under(r, s.as_str()));
                    assert(views_of(out@) =~= views_of(before).push(out@.last()@));
                }
            }
        }
        i = i + 1;
    }
    assert(props.take(props.len() as int) =~= props);
    out
}

/// Validation reads the existing paths only through the candidates: two sets of
/// existing paths that agree on every candidate give the same result.
pub proof fn law_validation_reads_only_candidates(
    args: Seq<(String, JsonValue)>,
    props: Seq<FunctionProperty>,
    root: Option<Seq<char>>,
    existing1: Seq<Seq<char>>,
    existing2: Seq<Seq<char>>,
)
    requires
        forall|c: Seq<char>|
            #[trigger] path_candidates_of(args, props, root).contains(c) ==> (existing1.contains(c)
                <==> existing2.contains(c)),
    ensures
        validation(args, props, root, existing1) == validation(args, props, root, existing2),
    decreases props.len(),
{
    if props.len() > 0 {
        let p = props.last();
        let earlier = path_candidates_of(args, props.drop_last(), root);
        let full = path_candidates_of(args, props, root);
        assert(full == earlier || full == earlier.push(full.last()));
        assert forall|c: Seq<char>| #[trigger] earlier.contains(c) implies (existing1.contains(c)
            <==> existing2.contains(c)) by {
            let k = choose|k: int| 0 <= k < earlier.len() && earlier[k] == c;
            assert(full[k] == c);
            assert(full.contains(c));
        }
        law_validation_reads_only_candidates(args, props.drop_last(), root, existing1, existing2);
        match (p.property_type, root, lookup(args, p.name@)) {
            (PropertyType::PathBuf, Some(r), Some(JsonValue::String(s))) => {
                let c = resolve_path(r, s@);
                assert(full[earlier.len() as int] == c);
                assert(full.contains(c));
            },
            _ => {},
        }
    }
}

/// When validation succeeds it yields one entry per property, in order, under the
/// property's name, and every required property has a value.
pub proof fn law_validation_covers_properties(
    args: Seq<(String, JsonValue)>,
    props: Seq<FunctionProperty>,
    root: Option<Seq<char>>,
    existing: Seq<Seq<char>>,
)
    ensures
        validation(args, props, root, existing) matches Ok(out) ==> {
            &&& out.len() == props.len()
            &&& forall|i: int|
                0 <= i < props.len() ==> (#[trigger] out[i]).0 == props[i].name@ && (props[i].required
                    ==> out[i].1 is Some)
        },
    decreases props.len(),
{
    if props.len() > 0 {
        law_validation_covers_properties(args, props.drop_last(), root, existing);
        if let Ok(out) = validation(args, props, root, existing) {
            let earlier = validation(args, props.drop_last(), root, existing)->Ok_0;
            assert(out == earlier.push((props.last().name@, out.last().1)));
            assert forall|i: int| 0 <= i < props.len() implies (#[trigger] out[i]).0
                == props[i].name@ && (props[i].required ==> out[i].1 is Some) by {
                if i < props.len() - 1 {
                    assert(out[i] == earlier[i]);
                    assert(props.drop_last()[i] == props[i]);
                }
            }
        }
    }
}

/// A required property without an argument makes validation fail.
pub proof fn law_missing_required_argument_fails(
    args: Seq<(String, JsonValue)>,
    props: Seq<FunctionProperty>,
    root: Option<Seq<char>>,
    existing: Seq<Seq<char>>,
    k: int,
)
    requires
        0 <= k < props.len(),
        props[k].required,
        lookup(args, props[k].name@) is None,
    ensures
        validation(args, props, root, existing) is Err,
    decreases props.len(),
{
    if k < props.len() - 1 {
        assert(props.drop_last()[k] == props[k]);
        law_missing_required_argument_fails(args, props.drop_last(), root, existing, k);
    }
}

/// What validation promises to hand back for an argument `v` of a property of
/// type `t`: an integer as its `i64`, a boolean as itself, a string as its text.
pub open spec fn reads_back(t: PropertyType, v: JsonValue, entry: Option<Option<ArgData>>) -> bool {
    match (t, v) {
        (PropertyType::Integer { .. }, JsonValue::Number(n)) => n.as_i64 is Some && entry == Some(
            Some(ArgData::Integer(n.as_i64->0)),
        ),
        (PropertyType::Boolean, JsonValue::Bool(b)) => entry == Some(Some(ArgData::Bool(b))),
        (PropertyType::String, JsonValue::String(s)) => entry == Some(Some(ArgData::Str(s@))),
        _ => true,
    }
}

/// A validated argument reads back as given: where validation succeeds, the
/// entry under a property's name holds the argument's integer as an `i64`, its
/// boolean, or its string, as the property's type asks; later properties of the
/// same name, if any, have the same type.
pub proof fn law_validated_argument_reads_back(
    args: Seq<(String, JsonValue)>,
    props: Seq<FunctionProperty>,
    root: Option<Seq<char>>,
    existing: Seq<Seq<char>>,
    k: int,
    v: JsonValue,
)
    requires
        0 <= k < props.len(),
        forall|j: int| k < j < props.len() && (#[trigger] props[j]).name@ == props[k].name@ ==> props[j].property_type
            == props[k].property_type,
        lookup(args, props[k].name@) == Some(v),
    ensures
        validation(args, props, root, existing) matches Ok(out) ==> reads_back(
            props[k].property_type,
            v,
            last_entry(out, props[k].name@),
        ),
    decreases props.len(),
{
    if let Ok(out) = validation(args, props, root, existing) {
        let earlier = validation(args, props.drop_last(), root, existing)->Ok_0;
        let last = props.last();
        assert(props[props.len() - 1] == last);
        if last.name@ == props[k].name@ {
            assert(last.property_type == props[k].property_type);
            assert(out.last() == (last.name@, out.last().1));
            assert(out.drop_last() == earlier);
        } else {
            assert(props.drop_last()[k] == props[k]);
            assert forall|j: int| k < j < props.drop_last().len() && (#[trigger] props.drop_last()[j]).name@
                == props.drop_last()[k].name@ implies props.drop_last()[j].property_type
                == props.drop_last()[k].property_type by {
                assert(props.drop_last()[j] == props[j]);
            }
            law_validated_argument_reads_back(args, props.drop_last(), root, existing, k, v);
            assert(out.drop_last() == earlier);
            assert(out.last().0 == last.name@);
            assert(props[props.len() - 1] == last);
        }
    }
}

/// The name under which an error message gives an expected kind of value.
pub open spec fn expected_name(e: Expected) -> Seq<char> {
    match e {
        Expected::Bool => "bool"@,
        Expected::Number => "number"@,
        Expected::String => "string"@,
        Expected::Array => "array"@,
        Expected::Null => "null"@,
        Expected::Integer => "integer"@,
        Expected::Range => "range"@,
        Expected::RegexPattern => "string (regex pattern)"@,
        Expected::PathString => "string (path)"@,
    }
}

/// The message that reports a refused argument. `found_shown` is how the value
/// found (or, for a missing path, the path) is shown, `expected_shown` how the
/// expected type of an array item is shown; the other errors do not use them.
pub open spec fn argument_error_text(e: ArgumentError, found_shown: Seq<char>, expected_shown: Seq<char>) -> Seq<char> {
    match e {
        ArgumentError::InvalidType { name, expected, .. } => "Invalid type for argument '"@ + name@
            + "'. Expected: "@ + expected_name(expected) + ", Found: "@ + found_shown,
        ArgumentError::ArrayTooShort { name, minimum, found } => "Array length for argument '"@ + name@
            + "' is below the minimum. Expected: "@ + decimal_text(minimum as nat) + ", Found: "@
            + decimal_text(found as nat),
        ArgumentError::ArrayTooLong { name, maximum, found } => "Array length for argument '"@ + name@
            + "' exceeds the maximum. Expected: "@ + decimal_text(maximum as nat) + ", Found: "@
            + decimal_text(found as nat),
        ArgumentError::InvalidArrayItem { name, .. } => "Invalid type for array item in argument '"@
            + name@ + "'. Expected: "@ + expected_shown + ", Found: "@ + found_shown,
        ArgumentError::BelowMinimum { name, minimum, found } => "Value for argument '"@ + name@
            + "' is below the minimum. Expected: "@ + signed_decimal_text(minimum as int) + ", Found: "@
            + signed_decimal_text(found as int),
        ArgumentError::AboveMaximum { name, maximum, found } => "Value for argument '"@ + name@
            + "' exceeds the maximum. Expected: "@ + signed_decimal_text(maximum as int) + ", Found: "@
            + signed_decimal_text(found as int),
        ArgumentError::RangeItemBelowMinimum { name, minimum, found } => "Value for range item in argument '"@
            + name@ + "' is below the minimum. Expected: "@ + signed_decimal_text(minimum as int)
            + ", Found: "@ + signed_decimal_text(found as int),
        ArgumentError::RangeItemAboveMaximum { name, maximum, found } => "Value for range item in argument '"@
            + name@ + "' exceeds the maximum. Expected: "@ + signed_decimal_text(maximum as int)
            + ", Found: "@ + signed_decimal_text(found as int),
        ArgumentError::InvalidRangeItem { name, .. } => "Invalid type for range item in argument '"@
            + name@ + "'. Expected: integer, Found: "@ + found_shown,
        ArgumentError::InvalidPattern { name, error } => "Invalid regular expression pattern for argument '"@
            + name@ + "'. Error: "@ + error@,
        ArgumentError::WorkspaceRootRequired { name } => "Workspace root is required to validate path argument '"@
            + name@ + "'"@,
        ArgumentError::PathDoesNotExist { name, .. } => "Invalid path for argument '"@ + name@
            + "'. Path does not exist: "@ + found_shown,
        ArgumentError::MissingRequired { name } => "Missing required argument: '"@ + name@ + "'"@,
    }
}

/// `a` followed by `b`.
fn cat(a: String, b: &str) -> (r: String)
    ensures
        r@ == a@ + b@,
{
    concat_strs(a.as_str(), b)
}

fn expected_text(e: Expected) -> (r: String)
    ensures
        r@ == expected_name(e),
{
    match e {
        Expected::Bool => string_of("bool"),
        Expected::Number => string_of("number"),
        Expected::String => string_of("string"),
        Expected::Array => string_of("array"),
        Expected::Null => string_of("null"),
        Expected::Integer => string_of("integer"),
        Expected::Range => string_of("range"),
        Expected::RegexPattern => string_of("string (regex pattern)"),
        Expected::PathString => string_of("string (path)"),
    }
}

/// The message that reports a refused argument (see [`argument_error_text`]).
pub fn argument_error_message(e: &ArgumentError, found_shown: &str, expected_shown: &str) -> (r: String)
    ensures
        r@ == argument_error_text(*e, found_shown@, expected_shown@),
{
    match e {
        ArgumentError::InvalidType { name, expected, .. } => {
            let s = cat(cat(string_of("Invalid type for argument '"), name.as_str()), "'. Expected: ");
            let s = cat(cat(s, expected_text(*expected).as_str()), ", Found: ");
            cat(s, found_shown)
        },
        ArgumentError::ArrayTooShort { name, minimum, found } => {
            let s = cat(cat(string_of("Array length for argument '"), name.as_str()), "' is below the minimum. Expected: ");
            let s = cat(cat(s, decimal_string(*minimum as u64).as_str()), ", Found: ");
            cat(s, decimal_string(*found as u64).as_str())
        },
        ArgumentError::ArrayTooLong { name, maximum, found } => {
            let s = cat(cat(string_of("Array length for argument '"), name.as_str()), "' exceeds the maximum. Expected: ");
            let s = cat(cat(s, decimal_string(*maximum as u64).as_str()), ", Found: ");
            cat(s, decimal_string(*found as u64).as_str())
        },
        ArgumentError::InvalidArrayItem { name, .. } => {
            let s = cat(cat(string_of("Invalid type for array item in argument '"), name.as_str()), "'. Expected: ");
            cat(cat(cat(s, expected_shown), ", Found: "), found_shown)
        },
        ArgumentError::BelowMinimum { name, minimum, found } => {
            let s = cat(cat(string_of("Value for argument '"), name.as_str()), "' is below the minimum. Expected: ");
            let s = cat(cat(s, signed_decimal_string(*minimum).as_str()), ", Found: ");
            cat(s, signed_decimal_string(*found).as_str())
        },
        ArgumentError::AboveMaximum { name, maximum, found } => {
            let s = cat(cat(string_of("Value for argument '"), name.as_str()), "' exceeds the maximum. Expected: ");
            let s = cat(cat(s, signed_decimal_string(*maximum).as_str()), ", Found: ");
            cat(s, signed_decimal_string(*found).as_str())
        },
        ArgumentError::RangeItemBelowMinimum { name, minimum, found } => {
            let s = cat(cat(string_of("Value for range item in argument '"), name.as_str()), "' is below the minimum. Expected: ");
            let s = cat(cat(s, signed_decimal_string(*minimum).as_str()), ", Found: ");
            cat(s, signed_decimal_string(*found).as_str())
        },
        ArgumentError::RangeItemAboveMaximum { name, maximum, found } => {
            let s = cat(cat(string_of("Value for range item in argument '"), name.as_str()), "' exceeds the maximum. Expected: ");
            let s = cat(cat(s, signed_decimal_string(*maximum).as_str()), ", Found: ");
            cat(s, signed_decimal_string(*found).as_str())
        },
        ArgumentError::InvalidRangeItem { name, .. } => {
            let s = cat(cat(string_of("Invalid type for range item in argument '"), name.as_str()), "'. Expected: integer, Found: ");
            cat(s, found_shown)
        },
        ArgumentError::InvalidPattern { name, error } => {
            let s = cat(cat(string_of("Invalid regular expression pattern for argument '"), name.as_str()), "'. Error: ");
            cat(s, error.as_str())
        },
        ArgumentError::WorkspaceRootRequired { name } => {
            cat(cat(string_of("Workspace root is required to validate path argument '"), name.as_str()), "'")
        },
        ArgumentError::PathDoesNotExist { name, .. } => {
            let s = cat(cat(string_of("Invalid path for argument '"), name.as_str()), "'. Path does not exist: ");
            cat(s, found_shown)
        },
        ArgumentError::MissingRequired { name } => {
            cat(cat(string_of("Missing required argument: '"), name.as_str()), "'")
        },
    }
}

/// The views of an optional list of strings.
pub open spec fn opt_views_of(v: Option<Vec<String>>) -> Option<Seq<Seq<char>>> {
    match v {
        Some(list) => Some(views_of(list@)),
        None => None,
    }
}

/// Two properties with the same content.
pub open spec fn same_property(a: FunctionProperty, b: FunctionProperty) -> bool {
    &&& a.name@ == b.name@
    &&& a.required == b.required
    &&& a.property_type == b.property_type
    &&& a.description == b.description
    &&& opt_views_of(a.enum_values) == opt_views_of(b.enum_values)
}

/// A copy of a list of strings.
pub fn copy_strings(v: &Vec<String>) -> (r: Vec<String>)
    ensures
        views_of(r@) == views_of(v@),
{
    let mut out: Vec<String> = Vec::new();
    let mut i: usize = 0;
    while i < v.len()
        invariant
            i <= v.len(),
            out.len() == i,
            forall|k: int| 0 <= k < i ==> (#[trigger] out@[k])@ == v@[k]@,
        decreases v.len() - i,
    {
        out.push(v[i].clone());
        i = i + 1;
    }
    assert(views_of(out@) =~= views_of(v@));
    out
}

impl FunctionProperty {
    /// A property with the given name, requiredness, type and description, and no
    /// list of allowed values.
    pub fn with_description(name: &str, required: bool, property_type: PropertyType, description: &str) -> (r:
        FunctionProperty)
        ensures
            r.name@ == name@,
            r.required == required,
            r.property_type == property_type,
            r.description matches Some(d) && d@ == description@,
            r.enum_values is None,
    {
        FunctionProperty {
            name: crate::text::string_of(name),
            required,
            property_type,
            description: Some(crate::text::string_of(description)),
            enum_values: None,
        }
    }

    /// A copy with the same content.
    pub fn copy(&self) -> (r: FunctionProperty)
        ensures
            same_property(r, *self),
    {
        FunctionProperty {
            name: self.name.clone(),
            required: self.required,
            property_type: self.property_type.copy(),
            description: match &self.description {
                Some(d) => Some(d.clone()),
                None => None,
            },
            enum_values: match &self.enum_values {
                Some(v) => Some(copy_strings(v)),
                None => None,
            },
        }
    }
}

/// Copies of a list of properties.
pub fn copy_properties(v: &Vec<FunctionProperty>) -> (r: Vec<FunctionProperty>)
    ensures
        r.len() == v.len(),
        forall|k: int| 0 <= k < v.len() ==> same_property(#[trigger] r@[k], v@[k]),
{
    let mut out: Vec<FunctionProperty> = Vec::new();
    let mut i: usize = 0;
    while i < v.len()
        invariant
            i <= v.len(),
            out.len() == i,
            forall|k: int| 0 <= k < i ==> same_property(#[trigger] out@[k], v@[k]),
        decreases v.len() - i,
    {
        out.push(v[i].copy());
        i = i + 1;
    }
    out
}

} // verus!
