//! The tools a chat model may call: their declared parameters, the definition
//! handed to the model, and the choice among the enabled tools.
use vstd::prelude::*;
use crate::arguments::{
    ArrayProperties, FunctionProperty, IntegerProperties, PropertyType, copy_properties,
    same_property,
};
use crate::text::{concat_strs, string_of, views_of};

verus! {

/// The parameters of a tool as the model is told them: a JSON object type, the
/// names of the required parameters and the declared properties.
#[derive(Debug)]
pub struct FunctionParameters {
    pub param_type: String,
    pub required: Vec<String>,
    pub properties: Vec<FunctionProperty>,
}

/// The definition of a tool: its name, description and parameters.
#[derive(Debug)]
pub struct ToolCall {
    pub name: String,
    pub description: Option<String>,
    pub parameters: Option<FunctionParameters>,
}

/// A list of tool definitions.
#[derive(Debug)]
pub struct Commands {
    pub commands: Vec<ToolCall>,
}

/// Whether a property's requiredness is `v`.
pub open spec fn required_is(v: bool) -> spec_fn(FunctionProperty) -> bool {
    |p: FunctionProperty| p.required == v
}

/// The properties that are required.
pub open spec fn required_of(props: Seq<FunctionProperty>) -> Seq<FunctionProperty> {
    props.filter(required_is(true))
}

/// The properties that are not required.
pub open spec fn optional_of(props: Seq<FunctionProperty>) -> Seq<FunctionProperty> {
    props.filter(required_is(false))
}

/// The names of properties.
pub open spec fn names_of(props: Seq<FunctionProperty>) -> Seq<Seq<char>> {
    props.map_values(|p: FunctionProperty| p.name@)
}

/// Two lists of properties with the same contents, element by element.
pub open spec fn same_properties(a: Seq<FunctionProperty>, b: Seq<FunctionProperty>) -> bool {
    &&& a.len() == b.len()
    &&& forall|k: int| 0 <= k < a.len() ==> same_property(#[trigger] a[k], b[k])
}

/// A definition named `name`, described by `description`, whose required
/// parameters are named after `first` and whose properties are `first` and then
/// `rest`.
pub open spec fn is_definition(
    r: ToolCall,
    name: Seq<char>,
    description: Seq<char>,
    first: Seq<FunctionProperty>,
    rest: Seq<FunctionProperty>,
) -> bool {
    &&& r.name@ == name
    &&& r.description matches Some(d) && d@ == description
    &&& r.parameters matches Some(p) && {
        &&& p.param_type@ == "object"@
        &&& views_of(p.required@) == names_of(first)
        &&& same_properties(p.properties@, first + rest)
    }
}

/// The properties of `props` for which `required` is as given, copied, in order.
fn select_by_required(props: &Vec<FunctionProperty>, required: bool) -> (r: Vec<FunctionProperty>)
    ensures
        same_properties(
            r@,
            if required {
                required_of(props@)
            } else {
                optional_of(props@)
            },
        ),
{
    let ghost pred = required_is(required);
    let mut out: Vec<FunctionProperty> = Vec::new();
    let mut i: usize = 0;
    assert(props@.take(0) =~= Seq::<FunctionProperty>::empty());
    proof {
        reveal(Seq::filter);
    }
    while i < props.len()
        invariant
            i <= props.len(),
            pred == required_is(required),
            same_properties(out@, props@.take(i as int).filter(pred)),
        decreases props.len() - i,
    {
        assert(props@.take(i + 1).drop_last() =~= props@.take(i as int));
        assert(props@.take(i + 1).last() == props@[i as int]);
        assert(pred(props@[i as int]) == (props@[i as int].required == required));
        proof {
            reveal(Seq::filter);
        }
        if props[i].required == required {
            let ghost before = out@;
            out.push(props[i].copy());
            assert(props@.take(i + 1).filter(pred) == props@.take(i as int).filter(pred).push(
                props@[i as int],
            ));
            assert forall|k: int| 0 <= k < out@.len() implies same_property(
                #[trigger] out@[k],
                props@.take(i + 1).filter(pred)[k],
            ) by {
                if k < before.len() {
                    assert(out@[k] == before[k]);
                }
            }
        } else {
            assert(props@.take(i + 1).filter(pred) == props@.take(i as int).filter(pred));
        }
        i = i + 1;
    }
    assert(props@.take(props.len() as int) =~= props@);
    out
}

/// The names of `props`, in order.
fn property_names(props: &Vec<FunctionProperty>) -> (r: Vec<String>)
    ensures
        views_of(r@) == names_of(props@),
{
    let mut out: Vec<String> = Vec::new();
    let mut i: usize = 0;
    while i < props.len()
        invariant
            i <= props.len(),
            out.len() == i,
            forall|k: int| 0 <= k < i ==> (#[trigger] out@[k])@ == props@[k].name@,
        decreases props.len() - i,
    {
        out.push(props[i].name.clone());
        i = i + 1;
    }
    assert(views_of(out@) =~= names_of(props@));
    out
}

/// The definition of a tool named `name`, described by `description`, whose
/// required parameters are those of `first`, listing `first` and then `rest`.
pub fn build_definition(
    name: &String,
    description: &String,
    first: &Vec<FunctionProperty>,
    rest: &Vec<FunctionProperty>,
) -> (r: ToolCall)
    ensures
        is_definition(r, name@, description@, first@, rest@),
{
    let mut properties = copy_properties(first);
    let tail = copy_properties(rest);
    let ghost head = properties@;
    let mut i: usize = 0;
    while i < tail.len()
        invariant
            i <= tail.len(),
            properties@.len() == first@.len() + i,
            forall|k: int| 0 <= k < first@.len() ==> #[trigger] properties@[k] == head[k],
            forall|k: int| 0 <= k < first@.len() ==> same_property(#[trigger] head[k], first@[k]),
            forall|k: int|
                0 <= k < i ==> same_property(#[trigger] properties@[first@.len() + k], rest@[k]),
            forall|k: int| 0 <= k < tail.len() ==> same_property(#[trigger] tail@[k], rest@[k]),
        decreases tail.len() - i,
    {
        properties.push(tail[i].copy());
        i = i + 1;
    }
    let r = ToolCall {
        name: name.clone(),
        description: Some(description.clone()),
        parameters: Some(
            FunctionParameters {
                param_type: string_of("object"),
                required: property_names(first),
                properties,
            },
        ),
    };
    assert forall|k: int| 0 <= k < properties@.len() implies same_property(
        #[trigger] properties@[k],
        (first@ + rest@)[k],
    ) by {
        if k < first@.len() {
            assert(properties@[k] == head[k]);
        } else {
            assert(properties@[first@.len() + (k - first@.len())] == properties@[k]);
        }
    }
    r
}

/// The definition of a tool from one list of properties: the required ones are
/// named as required, and listed before the others.
pub fn definition_from_properties(
    name: &String,
    description: &String,
    properties: &Vec<FunctionProperty>,
) -> (r: ToolCall)
    ensures
        is_definition(
            r,
            name@,
            description@,
            required_of(properties@),
            optional_of(properties@),
        ),
{
    let first = select_by_required(properties, true);
    let rest = select_by_required(properties, false);
    let r = build_definition(name, description, &first, &rest);
    proof {
        let p = r.parameters->0;
        assert(names_of(first@) =~= names_of(required_of(properties@)));
        assert forall|k: int| 0 <= k < p.properties@.len() implies same_property(
            #[trigger] p.properties@[k],
            (required_of(properties@) + optional_of(properties@))[k],
        ) by {
            if k < first@.len() {
                assert((first@ + rest@)[k] == first@[k]);
            } else {
                assert((first@ + rest@)[k] == rest@[k - first@.len()]);
            }
        }
    }
    r
}

/// The name, requiredness and description of a property.
pub open spec fn signature(p: FunctionProperty) -> (Seq<char>, bool, Option<Seq<char>>) {
    (
        p.name@,
        p.required,
        match p.description {
            Some(d) => Some(d@),
            None => None,
        },
    )
}

/// The signatures of a list of properties.
pub open spec fn signatures(props: Seq<FunctionProperty>) -> Seq<(Seq<char>, bool, Option<Seq<char>>)> {
    props.map_values(|p: FunctionProperty| signature(p))
}

/// The types of a list of properties.
pub open spec fn types_of(props: Seq<FunctionProperty>) -> Seq<PropertyType> {
    props.map_values(|p: FunctionProperty| p.property_type)
}

/// The type of a 32-byte symbol id: an array of exactly 32 integers from 0 to 255.
pub open spec fn is_symbol_id_type(t: PropertyType) -> bool {
    t matches PropertyType::Array { type_, properties } && {
        &&& type_@ == "integer"@
        &&& properties.min_items == Some(32usize)
        &&& properties.max_items == Some(32usize)
        &&& *properties.items matches PropertyType::Integer { type_: item_type, properties: bounds } && {
            &&& item_type@ == "integer"@
            &&& bounds.minimum == Some(0i64)
            &&& bounds.maximum == Some(255i64)
        }
    }
}

/// The grep tool: a pattern and the paths to search.
#[derive(Debug)]
pub struct GrepFunction {
    pub name: String,
    pub description: String,
    pub properties: Vec<FunctionProperty>,
}

impl GrepFunction {
    pub fn default() -> (r: GrepFunction)
        ensures
            r.name@ == "grep"@,
            r.description@ == "an implementation of grep"@,
            signatures(r.properties@) == seq![
                ("pattern"@, true, Some("a regular expression pattern to match against file contents"@)),
                ("paths"@, true, Some("a list of comma separated paths to walk for files which the pattern will be matched against"@)),
            ],
            types_of(r.properties@) == seq![PropertyType::String, PropertyType::String],
    {
        let mut properties: Vec<FunctionProperty> = Vec::new();
        properties.push(FunctionProperty::with_description(
            "pattern",
            true,
            PropertyType::String,
            "a regular expression pattern to match against file contents",
        ));
        properties.push(FunctionProperty::with_description(
            "paths",
            true,
            PropertyType::String,
            "a list of comma separated paths to walk for files which the pattern will be matched against",
        ));
        let r = GrepFunction {
            name: string_of("grep"),
            description: string_of("an implementation of grep"),
            properties,
        };
        assert(signatures(r.properties@) =~= seq![
                ("pattern"@, true, Some("a regular expression pattern to match against file contents"@)),
                ("paths"@, true, Some("a list of comma separated paths to walk for files which the pattern will be matched against"@)),
            ]);
        assert(types_of(r.properties@) =~= seq![PropertyType::String, PropertyType::String]);
        r
    }

    /// Same as [`GrepFunction::default`].
    pub fn init() -> (r: GrepFunction)
        ensures
            r.name@ == "grep"@,
            r.description@ == "an implementation of grep"@,
            signatures(r.properties@) == seq![
                ("pattern"@, true, Some("a regular expression pattern to match against file contents"@)),
                ("paths"@, true, Some("a list of comma separated paths to walk for files which the pattern will be matched against"@)),
            ],
            types_of(r.properties@) == seq![PropertyType::String, PropertyType::String],
    {
        GrepFunction::default()
    }

    /// The tool's name.
    pub fn name(&self) -> (r: &str)
        ensures
            r@ == self.name@,
    {
        self.name.as_str()
    }

    /// A copy of the tool's properties.
    pub fn properties(&self) -> (r: Vec<FunctionProperty>)
        ensures
            same_properties(r@, self.properties@),
    {
        copy_properties(&self.properties)
    }

    /// The tool's description.
    pub fn description(&self) -> (r: String)
        ensures
            r == self.description,
    {
        self.description.clone()
    }

    /// The definition handed to the model (see [`definition_from_properties`]).
    pub fn function_definition(&self) -> (r: ToolCall)
        ensures
            is_definition(
                r,
                self.name@,
                self.description@,
                required_of(self.properties@),
                optional_of(self.properties@),
            ),
    {
        definition_from_properties(&self.name, &self.description, &self.properties)
    }
}

/// What a text that cannot be read as UTF-8 is replaced with in a grep report.
pub open spec fn unreadable_output() -> Seq<char> {
    "Error parsing grep output text"@
}

/// The note that ends a grep report without matches.
pub open spec fn no_match_note(pattern: Seq<char>) -> Seq<char> {
    "No matches found for pattern: "@ + pattern
}

/// The report of a grep run: the printed matches (`None` where they are not
/// UTF-8), then the errors met while walking the paths, then a note where
/// nothing matched.
pub open spec fn grep_report_text(matches: Option<Seq<char>>, walk_errors: Seq<char>, pattern: Seq<char>) -> Seq<char> {
    match matches {
        None => unreadable_output() + walk_errors,
        Some(m) => if m.len() == 0 {
            walk_errors + no_match_note(pattern)
        } else {
            m + walk_errors
        },
    }
}

/// Assembles the report of a grep run from the printed matches (`None` where
/// they are not UTF-8), the errors met while walking the paths, and the pattern.
pub fn grep_report(matches: Option<String>, walk_errors: &str, pattern: &str) -> (r: String)
    ensures
        r@ == grep_report_text(
            match matches {
                Some(m) => Some(m@),
                None => None,
            },
            walk_errors@,
            pattern@,
        ),
{
    match matches {
        None => concat_strs("Error parsing grep output text", walk_errors),
        Some(m) => {
            if m.as_str().is_empty() {
                let note = concat_strs("No matches found for pattern: ", pattern);
                concat_strs(walk_errors, note.as_str())
            } else {
                concat_strs(m.as_str(), walk_errors)
            }
        },
    }
}

/// The tool that runs `cargo check`.
#[derive(Debug)]
pub struct CargoCheckFunction {
    pub name: String,
    pub description: String,
    pub properties: Vec<FunctionProperty>,
}

impl CargoCheckFunction {
    pub fn init() -> (r: CargoCheckFunction)
        ensures
            r.name@ == "cargo_check"@,
            r.description@ == "run cargo check"@,
            signatures(r.properties@).len() == 0,
            types_of(r.properties@) == Seq::<PropertyType>::empty(),
    {
        let properties: Vec<FunctionProperty> = Vec::new();

        let r = CargoCheckFunction {
            name: string_of("cargo_check"),
            description: string_of("run cargo check"),
            properties,
        };
        assert(signatures(r.properties@) =~= Seq::<(Seq<char>, bool, Option<Seq<char>>)>::empty());
        assert(types_of(r.properties@) =~= Seq::<PropertyType>::empty());
        r
    }

    /// The tool's name.
    pub fn name(&self) -> (r: &str)
        ensures
            r@ == self.name@,
    {
        self.name.as_str()
    }

    /// A copy of the tool's properties.
    pub fn properties(&self) -> (r: Vec<FunctionProperty>)
        ensures
            same_properties(r@, self.properties@),
    {
        copy_properties(&self.properties)
    }

    /// The tool's description.
    pub fn description(&self) -> (r: String)
        ensures
            r == self.description,
    {
        self.description.clone()
    }

    /// The definition handed to the model (see [`definition_from_properties`]).
    pub fn function_definition(&self) -> (r: ToolCall)
        ensures
            is_definition(
                r,
                self.name@,
                self.description@,
                required_of(self.properties@),
                optional_of(self.properties@),
            ),
    {
        definition_from_properties(&self.name, &self.description, &self.properties)
    }
}

/// The tool that asks the language server for diagnostics.
#[derive(Debug)]
pub struct LspGetDiagnostics {
    pub name: String,
    pub description: String,
    pub properties: Vec<FunctionProperty>,
}

impl LspGetDiagnostics {
    pub fn init() -> (r: LspGetDiagnostics)
        ensures
            r.name@ == "lsp_diagnostics"@,
            r.description@ == "get language server diagnostic information"@,
            signatures(r.properties@) == seq![
                ("errors"@, true, Some("include errors in the diagnostic report"@)),
                ("warnings"@, true, Some("include warnings in the diagnostic report"@)),
                ("information"@, true, Some("include diagnostics classified as information in the diagnostic report"@)),
                ("hints"@, true, Some("include diagnostics classified as hints in the diagnostic report"@)),
                ("no_severity"@, true, Some("include diagnostics with no severity classification in the diagnostic report"@)),
                ("file_path_regex"@, false, Some("include results where the file path matches"@)),
                ("range"@, false, Some("filter results by byte range in source file, in the format of start_line,start_char,end_line,end_char. this has no effect if file_path_regex is not specified"@)),
            ],
            types_of(r.properties@) == seq![PropertyType::Boolean, PropertyType::Boolean, PropertyType::Boolean, PropertyType::Boolean, PropertyType::Boolean, PropertyType::Pattern, PropertyType::String],
    {
        let mut properties: Vec<FunctionProperty> = Vec::new();
        properties.push(FunctionProperty::with_description(
            "errors",
            true,
            PropertyType::Boolean,
            "include errors in the diagnostic report",
        ));
        properties.push(FunctionProperty::with_description(
            "warnings",
            true,
            PropertyType::Boolean,
            "include warnings in the diagnostic report",
        ));
        properties.push(FunctionProperty::with_description(
            "information",
            true,
            PropertyType::Boolean,
            "include diagnostics classified as information in the diagnostic report",
        ));
        properties.push(FunctionProperty::with_description(
            "hints",
            true,
            PropertyType::Boolean,
            "include diagnostics classified as hints in the diagnostic report",
        ));
        properties.push(FunctionProperty::with_description(
            "no_severity",
            true,
            PropertyType::Boolean,
            "include diagnostics with no severity classification in the diagnostic report",
        ));
        properties.push(FunctionProperty::with_description(
            "file_path_regex",
            false,
            PropertyType::Pattern,
            "include results where the file path matches",
        ));
        properties.push(FunctionProperty::with_description(
            "range",
            false,
            PropertyType::String,
            "filter results by byte range in source file, in the format of start_line,start_char,end_line,end_char. this has no effect if file_path_regex is not specified",
        ));
        let r = LspGetDiagnostics {
            name: string_of("lsp_diagnostics"),
            description: string_of("get language server diagnostic information"),
            properties,
        };
        assert(signatures(r.properties@) =~= seq![
                ("errors"@, true, Some("include errors in the diagnostic report"@)),
                ("warnings"@, true, Some("include warnings in the diagnostic report"@)),
                ("information"@, true, Some("include diagnostics classified as information in the diagnostic report"@)),
                ("hints"@, true, Some("include diagnostics classified as hints in the diagnostic report"@)),
                ("no_severity"@, true, Some("include diagnostics with no severity classification in the diagnostic report"@)),
                ("file_path_regex"@, false, Some("include results where the file path matches"@)),
                ("range"@, false, Some("filter results by byte range in source file, in the format of start_line,start_char,end_line,end_char. this has no effect if file_path_regex is not specified"@)),
            ]);
        assert(types_of(r.properties@) =~= seq![PropertyType::Boolean, PropertyType::Boolean, PropertyType::Boolean, PropertyType::Boolean, PropertyType::Boolean, PropertyType::Pattern, PropertyType::String]);
        r
    }

    /// The tool's name.
    pub fn name(&self) -> (r: &str)
        ensures
            r@ == self.name@,
    {
        self.name.as_str()
    }

    /// A copy of the tool's properties.
    pub fn properties(&self) -> (r: Vec<FunctionProperty>)
        ensures
            same_properties(r@, self.properties@),
    {
        copy_properties(&self.properties)
    }

    /// The tool's description.
    pub fn description(&self) -> (r: String)
        ensures
            r == self.description,
    {
        self.description.clone()
    }

    /// The definition handed to the model (see [`definition_from_properties`]).
    pub fn function_definition(&self) -> (r: ToolCall)
        ensures
            is_definition(
                r,
                self.name@,
                self.description@,
                required_of(self.properties@),
                optional_of(self.properties@),
            ),
    {
        definition_from_properties(&self.name, &self.description, &self.properties)
    }
}

/// The tool that lists the workspace files the language server knows.
#[derive(Debug)]
pub struct LspGetWorkspaceFiles {
    pub name: String,
    pub description: String,
    pub properties: Vec<FunctionProperty>,
}

impl LspGetWorkspaceFiles {
    pub fn init() -> (r: LspGetWorkspaceFiles)
        ensures
            r.name@ == "lsp_workspace_files"@,
            r.description@ == "list the workspace source files that the language server is aware of"@,
            signatures(r.properties@) == seq![
                ("file_name_regex"@, false, Some("filter the results with a matching pattern"@)),
            ],
            types_of(r.properties@) == seq![PropertyType::Pattern],
    {
        let mut properties: Vec<FunctionProperty> = Vec::new();
        properties.push(FunctionProperty::with_description(
            "file_name_regex",
            false,
            PropertyType::Pattern,
            "filter the results with a matching pattern",
        ));
        let r = LspGetWorkspaceFiles {
            name: string_of("lsp_workspace_files"),
            description: string_of("list the workspace source files that the language server is aware of"),
            properties,
        };
        assert(signatures(r.properties@) =~= seq![
                ("file_name_regex"@, false, Some("filter the results with a matching pattern"@)),
            ]);
        assert(types_of(r.properties@) =~= seq![PropertyType::Pattern]);
        r
    }

    /// The tool's name.
    pub fn name(&self) -> (r: &str)
        ensures
            r@ == self.name@,
    {
        self.name.as_str()
    }

    /// A copy of the tool's properties.
    pub fn properties(&self) -> (r: Vec<FunctionProperty>)
        ensures
            same_properties(r@, self.properties@),
    {
        copy_properties(&self.properties)
    }

    /// The tool's description.
    pub fn description(&self) -> (r: String)
        ensures
            r == self.description,
    {
        self.description.clone()
    }

    /// The definition handed to the model (see [`definition_from_properties`]).
    pub fn function_definition(&self) -> (r: ToolCall)
        ensures
            is_definition(
                r,
                self.name@,
                self.description@,
                required_of(self.properties@),
                optional_of(self.properties@),
            ),
    {
        definition_from_properties(&self.name, &self.description, &self.properties)
    }
}

/// The tool that finds where the type of a symbol is defined.
#[derive(Debug)]
pub struct LspGotoTypeDefinition {
    pub name: String,
    pub description: String,
    pub properties: Vec<FunctionProperty>,
}

impl LspGotoTypeDefinition {
    pub fn init() -> (r: LspGotoTypeDefinition)
        ensures
            r.name@ == "lsp_goto_type_definition"@,
            r.description@ == "get the symbol information for where a symbol type is defined"@,
            signatures(r.properties@) == seq![
                ("symbol_id"@, true, Some("the 32 byte symbol_id for which to find the declaration"@)),
            ],
            types_of(r.properties@).len() == 1,
            is_symbol_id_type(types_of(r.properties@)[0]),
    {
        let mut properties: Vec<FunctionProperty> = Vec::new();
        properties.push(FunctionProperty::with_description(
            "symbol_id",
            true,
            PropertyType::Array {
                type_: string_of("integer"),
                properties: ArrayProperties {
                    items: Box::new(PropertyType::Integer {
                        type_: string_of("integer"),
                        properties: IntegerProperties { minimum: Some(0), maximum: Some(255) },
                    }),
                    min_items: Some(32),
                    max_items: Some(32),
                },
            },
            "the 32 byte symbol_id for which to find the declaration",
        ));
        let r = LspGotoTypeDefinition {
            name: string_of("lsp_goto_type_definition"),
            description: string_of("get the symbol information for where a symbol type is defined"),
            properties,
        };
        assert(signatures(r.properties@) =~= seq![
                ("symbol_id"@, true, Some("the 32 byte symbol_id for which to find the declaration"@)),
            ]);
        r
    }

    /// The tool's name.
    pub fn name(&self) -> (r: &str)
        ensures
            r@ == self.name@,
    {
        self.name.as_str()
    }

    /// A copy of the tool's properties.
    pub fn properties(&self) -> (r: Vec<FunctionProperty>)
        ensures
            same_properties(r@, self.properties@),
    {
        copy_properties(&self.properties)
    }

    /// The tool's description.
    pub fn description(&self) -> (r: String)
        ensures
            r == self.description,
    {
        self.description.clone()
    }

    /// The definition handed to the model (see [`definition_from_properties`]).
    pub fn function_definition(&self) -> (r: ToolCall)
        ensures
            is_definition(
                r,
                self.name@,
                self.description@,
                required_of(self.properties@),
                optional_of(self.properties@),
            ),
    {
        definition_from_properties(&self.name, &self.description, &self.properties)
    }
}

/// The tool that queries the symbols of the workspace.
#[derive(Debug)]
pub struct LspQuerySymbol {
    pub name: String,
    pub description: String,
    pub properties: Vec<FunctionProperty>,
}

impl LspQuerySymbol {
    pub fn init() -> (r: LspQuerySymbol)
        ensures
            r.name@ == "lsp_query"@,
            r.description@ == "query symbols in project source code using a language server"@,
            signatures(r.properties@) == seq![
                ("name_regex"@, false, Some("include results where the symbol name matches"@)),
                ("kind"@, false, Some("filter results by kind: MODULE NAMESPACE PACKAGE CLASS METHOD PROPERTY FIELD CONSTRUCTOR ENUM INTERFACE FUNCTION VARIABLE CONSTANT STRING NUMBER BOOLEAN ARRAY OBJECT KEY NULL ENUM_MEMBER STRUCT EVENT OPERATOR TYPE_PARAMETER"@)),
                ("range"@, false, Some("filter results by byte range in source file, in the format of start_line,start_char,end_line,end_char"@)),
                ("file_path_regex"@, false, Some("include results where the file path matches"@)),
            ],
            types_of(r.properties@) == seq![PropertyType::Pattern, PropertyType::String, PropertyType::String, PropertyType::Pattern],
    {
        let mut properties: Vec<FunctionProperty> = Vec::new();
        properties.push(FunctionProperty::with_description(
            "name_regex",
            false,
            PropertyType::Pattern,
            "include results where the symbol name matches",
        ));
        properties.push(FunctionProperty::with_description(
            "kind",
            false,
            PropertyType::String,
            "filter results by kind: MODULE NAMESPACE PACKAGE CLASS METHOD PROPERTY FIELD CONSTRUCTOR ENUM INTERFACE FUNCTION VARIABLE CONSTANT STRING NUMBER BOOLEAN ARRAY OBJECT KEY NULL ENUM_MEMBER STRUCT EVENT OPERATOR TYPE_PARAMETER",
        ));
        properties.push(FunctionProperty::with_description(
            "range",
            false,
            PropertyType::String,
            "filter results by byte range in source file, in the format of start_line,start_char,end_line,end_char",
        ));
        properties.push(FunctionProperty::with_description(
            "file_path_regex",
            false,
            PropertyType::Pattern,
            "include results where the file path matches",
        ));
        let r = LspQuerySymbol {
            name: string_of("lsp_query"),
            description: string_of("query symbols in project source code using a language server"),
            properties,
        };
        assert(signatures(r.properties@) =~= seq![
                ("name_regex"@, false, Some("include results where the symbol name matches"@)),
                ("kind"@, false, Some("filter results by kind: MODULE NAMESPACE PACKAGE CLASS METHOD PROPERTY FIELD CONSTRUCTOR ENUM INTERFACE FUNCTION VARIABLE CONSTANT STRING NUMBER BOOLEAN ARRAY OBJECT KEY NULL ENUM_MEMBER STRUCT EVENT OPERATOR TYPE_PARAMETER"@)),
                ("range"@, false, Some("filter results by byte range in source file, in the format of start_line,start_char,end_line,end_char"@)),
                ("file_path_regex"@, false, Some("include results where the file path matches"@)),
            ]);
        assert(types_of(r.properties@) =~= seq![PropertyType::Pattern, PropertyType::String, PropertyType::String, PropertyType::Pattern]);
        r
    }

    /// The tool's name.
    pub fn name(&self) -> (r: &str)
        ensures
            r@ == self.name@,
    {
        self.name.as_str()
    }

    /// A copy of the tool's properties.
    pub fn properties(&self) -> (r: Vec<FunctionProperty>)
        ensures
            same_properties(r@, self.properties@),
    {
        copy_properties(&self.properties)
    }

    /// The tool's description.
    pub fn description(&self) -> (r: String)
        ensures
            r == self.description,
    {
        self.description.clone()
    }

    /// The definition handed to the model (see [`definition_from_properties`]).
    pub fn function_definition(&self) -> (r: ToolCall)
        ensures
            is_definition(
                r,
                self.name@,
                self.description@,
                required_of(self.properties@),
                optional_of(self.properties@),
            ),
    {
        definition_from_properties(&self.name, &self.description, &self.properties)
    }
}

/// The language server tool: queries symbols by name, kind, range and file.
#[derive(Debug)]
pub struct LspTool {
    pub name: String,
    pub description: String,
    pub properties: Vec<FunctionProperty>,
}

impl LspTool {
    pub fn init() -> (r: LspTool)
        ensures
            r.name@ == "language_server"@,
            r.description@ == "query symbols in project source code using a language server"@,
            signatures(r.properties@) == seq![
                ("name"@, false, Some("filter results by name"@)),
                ("kind"@, false, Some("filter results by kind: FILE MODULE NAMESPACE PACKAGE CLASS METHOD PROPERTY FIELD CONSTRUCTOR ENUM INTERFACE FUNCTION VARIABLE CONSTANT STRING NUMBER BOOLEAN ARRAY OBJECT KEY NULL ENUM_MEMBER STRUCT EVENT OPERATOR TYPE_PARAMETER"@)),
                ("range"@, false, Some("filter results by byte range in source file, in the format of start_line,start_char,end_line,end_char"@)),
                ("file_name"@, false, Some("filter results source file, based on file name"@)),
            ],
            types_of(r.properties@) == seq![PropertyType::String, PropertyType::String, PropertyType::String, PropertyType::String],
    {
        let mut properties: Vec<FunctionProperty> = Vec::new();
        properties.push(FunctionProperty::with_description(
            "name",
            false,
            PropertyType::String,
            "filter results by name",
        ));
        properties.push(FunctionProperty::with_description(
            "kind",
            false,
            PropertyType::String,
            "filter results by kind: FILE MODULE NAMESPACE PACKAGE CLASS METHOD PROPERTY FIELD CONSTRUCTOR ENUM INTERFACE FUNCTION VARIABLE CONSTANT STRING NUMBER BOOLEAN ARRAY OBJECT KEY NULL ENUM_MEMBER STRUCT EVENT OPERATOR TYPE_PARAMETER",
        ));
        properties.push(FunctionProperty::with_description(
            "range",
            false,
            PropertyType::String,
            "filter results by byte range in source file, in the format of start_line,start_char,end_line,end_char",
        ));
        properties.push(FunctionProperty::with_description(
            "file_name",
            false,
            PropertyType::String,
            "filter results source file, based on file name",
        ));
        let r = LspTool {
            name: string_of("language_server"),
            description: string_of("query symbols in project source code using a language server"),
            properties,
        };
        assert(signatures(r.properties@) =~= seq![
                ("name"@, false, Some("filter results by name"@)),
                ("kind"@, false, Some("filter results by kind: FILE MODULE NAMESPACE PACKAGE CLASS METHOD PROPERTY FIELD CONSTRUCTOR ENUM INTERFACE FUNCTION VARIABLE CONSTANT STRING NUMBER BOOLEAN ARRAY OBJECT KEY NULL ENUM_MEMBER STRUCT EVENT OPERATOR TYPE_PARAMETER"@)),
                ("range"@, false, Some("filter results by byte range in source file, in the format of start_line,start_char,end_line,end_char"@)),
                ("file_name"@, false, Some("filter results source file, based on file name"@)),
            ]);
        assert(types_of(r.properties@) =~= seq![PropertyType::String, PropertyType::String, PropertyType::String, PropertyType::String]);
        r
    }

    /// The tool's name.
    pub fn name(&self) -> (r: &str)
        ensures
            r@ == self.name@,
    {
        self.name.as_str()
    }

    /// A copy of the tool's properties.
    pub fn properties(&self) -> (r: Vec<FunctionProperty>)
        ensures
            same_properties(r@, self.properties@),
    {
        copy_properties(&self.properties)
    }

    /// The tool's description.
    pub fn description(&self) -> (r: String)
        ensures
            r == self.description,
    {
        self.description.clone()
    }

    /// The definition handed to the model (see [`definition_from_properties`]).
    pub fn function_definition(&self) -> (r: ToolCall)
        ensures
            is_definition(
                r,
                self.name@,
                self.description@,
                required_of(self.properties@),
                optional_of(self.properties@),
            ),
    {
        definition_from_properties(&self.name, &self.description, &self.properties)
    }
}

/// The tool that runs `pcre2grep`.
#[derive(Debug)]
pub struct Pcre2GrepFunction {
    pub name: String,
    pub description: String,
    pub required_properties: Vec<FunctionProperty>,
    pub optional_properties: Vec<FunctionProperty>,
}

impl Pcre2GrepFunction {
    pub fn default() -> (r: Pcre2GrepFunction)
        ensures
            r.name@ == "pcre2grep"@,
            r.description@ == "an implementation of grep"@,
            signatures(r.required_properties@) == seq![
                ("pattern"@, true, Some("a regular expression pattern to match against file contents"@)),
                ("paths"@, true, Some("a list of comma separated paths to walk for files which the pattern will be matched against"@)),
            ],
            types_of(r.required_properties@) == seq![PropertyType::String, PropertyType::String],
            signatures(r.optional_properties@).len() == 0,
            types_of(r.optional_properties@) == Seq::<PropertyType>::empty(),
    {
        let mut required_properties: Vec<FunctionProperty> = Vec::new();
        required_properties.push(FunctionProperty::with_description(
            "pattern",
            true,
            PropertyType::String,
            "a regular expression pattern to match against file contents",
        ));
        required_properties.push(FunctionProperty::with_description(
            "paths",
            true,
            PropertyType::String,
            "a list of comma separated paths to walk for files which the pattern will be matched against",
        ));
        let optional_properties: Vec<FunctionProperty> = Vec::new();

        let r = Pcre2GrepFunction {
            name: string_of("pcre2grep"),
            description: string_of("an implementation of grep"),
            required_properties,
            optional_properties,
        };
        assert(signatures(r.required_properties@) =~= seq![
                ("pattern"@, true, Some("a regular expression pattern to match against file contents"@)),
                ("paths"@, true, Some("a list of comma separated paths to walk for files which the pattern will be matched against"@)),
            ]);
        assert(types_of(r.required_properties@) =~= seq![PropertyType::String, PropertyType::String]);
        assert(signatures(r.optional_properties@) =~= Seq::<(Seq<char>, bool, Option<Seq<char>>)>::empty());
        assert(types_of(r.optional_properties@) =~= Seq::<PropertyType>::empty());
        r
    }

    /// Same as [`Pcre2GrepFunction::default`].
    pub fn init() -> (r: Pcre2GrepFunction)
        ensures
            r.name@ == "pcre2grep"@,
            r.description@ == "an implementation of grep"@,
            signatures(r.required_properties@) == seq![
                ("pattern"@, true, Some("a regular expression pattern to match against file contents"@)),
                ("paths"@, true, Some("a list of comma separated paths to walk for files which the pattern will be matched against"@)),
            ],
            types_of(r.required_properties@) == seq![PropertyType::String, PropertyType::String],
            signatures(r.optional_properties@).len() == 0,
            types_of(r.optional_properties@) == Seq::<PropertyType>::empty(),
    {
        Pcre2GrepFunction::default()
    }

    /// The tool's name.
    pub fn name(&self) -> (r: &str)
        ensures
            r@ == self.name@,
    {
        self.name.as_str()
    }

    /// The definition handed to the model: every property of the first list is
    /// named as required, and the properties are listed first list first.
    pub fn function_definition(&self) -> (r: ToolCall)
        ensures
            is_definition(
                r,
                self.name@,
                self.description@,
                self.required_properties@,
                self.optional_properties@,
            ),
    {
        build_definition(&self.name, &self.description, &self.required_properties, &self.optional_properties)
    }
}

/// The tool that parses source files with tree-sitter.
#[derive(Debug)]
pub struct TreesitterFunction {
    pub name: String,
    pub description: String,
    pub required_properties: Vec<FunctionProperty>,
    pub optional_properties: Vec<FunctionProperty>,
}

impl TreesitterFunction {
    pub fn init() -> (r: TreesitterFunction)
        ensures
            r.name@ == "treesitter"@,
            r.description@ == "parse source code using tree-sitter"@,
            signatures(r.required_properties@) == seq![
                ("path_globs"@, true, Some("a comma separated list of glob patterns that represent source files to be parsed"@)),
            ],
            types_of(r.required_properties@) == seq![PropertyType::String],
            signatures(r.optional_properties@) == seq![
                ("query"@, false, Some("tree sitter query to execute upon source file"@)),
            ],
            types_of(r.optional_properties@) == seq![PropertyType::String],
    {
        let mut required_properties: Vec<FunctionProperty> = Vec::new();
        required_properties.push(FunctionProperty::with_description(
            "path_globs",
            true,
            PropertyType::String,
            "a comma separated list of glob patterns that represent source files to be parsed",
        ));
        let mut optional_properties: Vec<FunctionProperty> = Vec::new();
        optional_properties.push(FunctionProperty::with_description(
            "query",
            false,
            PropertyType::String,
            "tree sitter query to execute upon source file",
        ));
        let r = TreesitterFunction {
            name: string_of("treesitter"),
            description: string_of("parse source code using tree-sitter"),
            required_properties,
            optional_properties,
        };
        assert(signatures(r.required_properties@) =~= seq![
                ("path_globs"@, true, Some("a comma separated list of glob patterns that represent source files to be parsed"@)),
            ]);
        assert(types_of(r.required_properties@) =~= seq![PropertyType::String]);
        assert(signatures(r.optional_properties@) =~= seq![
                ("query"@, false, Some("tree sitter query to execute upon source file"@)),
            ]);
        assert(types_of(r.optional_properties@) =~= seq![PropertyType::String]);
        r
    }

    /// The tool's name.
    pub fn name(&self) -> (r: &str)
        ensures
            r@ == self.name@,
    {
        self.name.as_str()
    }

    /// The definition handed to the model: every property of the first list is
    /// named as required, and the properties are listed first list first.
    pub fn function_definition(&self) -> (r: ToolCall)
        ensures
            is_definition(
                r,
                self.name@,
                self.description@,
                self.required_properties@,
                self.optional_properties@,
            ),
    {
        build_definition(&self.name, &self.description, &self.required_properties, &self.optional_properties)
    }
}

/// The tool that edits a file at a line and column.
#[derive(Debug)]
pub struct EditFileFunction {
    pub name: String,
    pub description: String,
    pub required_properties: Vec<FunctionProperty>,
    pub optional_properties: Vec<FunctionProperty>,
}

impl EditFileFunction {
    pub fn init() -> (r: EditFileFunction)
        ensures
            r.name@ == "edit_file"@,
            r.description@ == "insert text into a file at a line and column"@,
            signatures(r.required_properties@) == seq![
                ("path"@, true, Some("path to file"@)),
                ("line_num"@, true, Some("line number in file to start edit, 0 indexed"@)),
                ("col"@, true, Some("column index in line to begin edit, 0 indexed"@)),
                ("del_count"@, false, Some("number of characters to delete prior to inserting text"@)),
                ("text"@, false, Some("text to insert"@)),
            ],
            types_of(r.required_properties@) == seq![PropertyType::String, PropertyType::Number, PropertyType::Number, PropertyType::Number, PropertyType::String],
            signatures(r.optional_properties@).len() == 0,
            types_of(r.optional_properties@) == Seq::<PropertyType>::empty(),
    {
        let mut required_properties: Vec<FunctionProperty> = Vec::new();
        required_properties.push(FunctionProperty::with_description(
            "path",
            true,
            PropertyType::String,
            "path to file",
        ));
        required_properties.push(FunctionProperty::with_description(
            "line_num",
            true,
            PropertyType::Number,
            "line number in file to start edit, 0 indexed",
        ));
        required_properties.push(FunctionProperty::with_description(
            "col",
            true,
            PropertyType::Number,
            "column index in line to begin edit, 0 indexed",
        ));
        required_properties.push(FunctionProperty::with_description(
            "del_count",
            false,
            PropertyType::Number,
            "number of characters to delete prior to inserting text",
        ));
        required_properties.push(FunctionProperty::with_description(
            "text",
            false,
            PropertyType::String,
            "text to insert",
        ));
        let optional_properties: Vec<FunctionProperty> = Vec::new();

        let r = EditFileFunction {
            name: string_of("edit_file"),
            description: string_of("insert text into a file at a line and column"),
            required_properties,
            optional_properties,
        };
        assert(signatures(r.required_properties@) =~= seq![
                ("path"@, true, Some("path to file"@)),
                ("line_num"@, true, Some("line number in file to start edit, 0 indexed"@)),
                ("col"@, true, Some("column index in line to begin edit, 0 indexed"@)),
                ("del_count"@, false, Some("number of characters to delete prior to inserting text"@)),
                ("text"@, false, Some("text to insert"@)),
            ]);
        assert(types_of(r.required_properties@) =~= seq![PropertyType::String, PropertyType::Number, PropertyType::Number, PropertyType::Number, PropertyType::String]);
        assert(signatures(r.optional_properties@) =~= Seq::<(Seq<char>, bool, Option<Seq<char>>)>::empty());
        assert(types_of(r.optional_properties@) =~= Seq::<PropertyType>::empty());
        r
    }

    /// The tool's name.
    pub fn name(&self) -> (r: &str)
        ensures
            r@ == self.name@,
    {
        self.name.as_str()
    }

    /// The definition handed to the model: every property of the first list is
    /// named as required, and the properties are listed first list first.
    pub fn function_definition(&self) -> (r: ToolCall)
        ensures
            is_definition(
                r,
                self.name@,
                self.description@,
                self.required_properties@,
                self.optional_properties@,
            ),
    {
        build_definition(&self.name, &self.description, &self.required_properties, &self.optional_properties)
    }
}

/// The kinds of query that the language server tool makes.
#[derive(Debug, Clone, Copy, PartialEq, Eq, Structural)]
pub enum LspToolVariant {
    SymbolQuery,
}

/// A command's name and description.
#[derive(Debug)]
pub struct CommandDef {
    pub name: String,
    pub description: String,
}

/// The command that runs `sed` with the arguments it is given.
#[derive(Debug)]
pub struct SedCommand;

/// Why a command failed: its arguments could not be read, or running it failed
/// (with the error's message).
#[derive(Debug)]
pub enum ModelFunctionError {
    ArgumentParseError(String),
    ExecutionError(String),
}

/// The message with which a `sed` call without arguments fails.
pub open spec fn no_sed_arguments_message() -> Seq<char> {
    "No arguments provided for sed command"@
}

impl SedCommand {
    /// The command's definition.
    pub fn command_definition(&self) -> (r: CommandDef)
        ensures
            r.name@ == "sed_command"@,
            r.description@ == "Executes a sed command with the specified arguments."@,
    {
        CommandDef {
            name: string_of("sed_command"),
            description: string_of("Executes a sed command with the specified arguments."),
        }
    }

    /// Checks the arguments before `sed` runs: there must be at least one.
    pub fn check_arguments(&self, args: &Vec<String>) -> (r: Result<(), ModelFunctionError>)
        ensures
            args.len() == 0 ==> (r matches Err(ModelFunctionError::ExecutionError(m)) && m@
                == no_sed_arguments_message()),
            args.len() > 0 ==> r is Ok,
    {
        if args.len() == 0 {
            return Err(
                ModelFunctionError::ExecutionError(string_of("No arguments provided for sed command")),
            );
        }
        Ok(())
    }
}

} // verus!
