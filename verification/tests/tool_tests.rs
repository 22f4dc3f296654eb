use sazid::arguments::{FunctionProperty, PropertyType};
use sazid::registry::{
    chat_tool_error_messages, complete_tool_call, failed_tool_output_error, tool_completion_content,
    tool_not_found_error, tool_result_messages, ChatTools, ToolCallPlan, ToolCallStep,
    ToolConfigError, ToolMessage,
};
use sazid::tools::{
    build_definition, definition_from_properties, CargoCheckFunction, EditFileFunction,
    GrepFunction, LspGetDiagnostics, LspGetWorkspaceFiles, LspGotoTypeDefinition, LspQuerySymbol,
    LspTool, ModelFunctionError, Pcre2GrepFunction, SedCommand, TreesitterFunction,
};

fn prop(name: &str, required: bool) -> FunctionProperty {
    FunctionProperty {
        name: name.to_string(),
        required,
        property_type: PropertyType::String,
        description: Some(format!("the {}", name)),
        enum_values: None,
    }
}

fn strings(v: &[&str]) -> Vec<String> {
    v.iter().map(|s| s.to_string()).collect()
}

#[test]
fn tool_names() {
    assert_eq!(GrepFunction::init().name(), "grep");
    assert_eq!(CargoCheckFunction::init().name(), "cargo_check");
    assert_eq!(LspGetDiagnostics::init().name(), "lsp_diagnostics");
    assert_eq!(LspGetWorkspaceFiles::init().name(), "lsp_workspace_files");
    assert_eq!(LspGotoTypeDefinition::init().name(), "lsp_goto_type_definition");
    assert_eq!(LspQuerySymbol::init().name(), "lsp_query");
    assert_eq!(LspTool::init().name(), "language_server");
    assert_eq!(Pcre2GrepFunction::init().name(), "pcre2grep");
    assert_eq!(TreesitterFunction::init().name(), "treesitter");
    assert_eq!(EditFileFunction::init().name(), "edit_file");
}

#[test]
fn grep_definition() {
    let grep = GrepFunction::init();
    assert_eq!(grep.description(), "an implementation of grep");
    let def = grep.function_definition();
    assert_eq!(def.name, "grep");
    assert_eq!(def.description.as_deref(), Some("an implementation of grep"));
    let params = def.parameters.unwrap();
    assert_eq!(params.param_type, "object");
    assert_eq!(params.required, strings(&["pattern", "paths"]));
    let names: Vec<&str> = params.properties.iter().map(|p| p.name.as_str()).collect();
    assert_eq!(names, vec!["pattern", "paths"]);
}

#[test]
fn diagnostics_definition_lists_required_properties_first() {
    let def = LspGetDiagnostics::init().function_definition();
    let params = def.parameters.unwrap();
    assert_eq!(params.required, strings(&["errors", "warnings", "information", "hints", "no_severity"]));
    assert_eq!(params.properties.len(), 7);
    assert_eq!(params.properties[5].name, "file_path_regex");
    assert!(!params.properties[6].required);
}

#[test]
fn definition_from_mixed_properties() {
    let props = vec![prop("a", false), prop("b", true), prop("c", false), prop("d", true)];
    let def = definition_from_properties(&"t".to_string(), &"desc".to_string(), &props);
    let params = def.parameters.unwrap();
    assert_eq!(params.required, strings(&["b", "d"]));
    let names: Vec<&str> = params.properties.iter().map(|p| p.name.as_str()).collect();
    assert_eq!(names, vec!["b", "d", "a", "c"]);
    assert_eq!(params.properties[0].description.as_deref(), Some("the b"));
}

#[test]
fn definition_from_two_lists() {
    let def = build_definition(
        &"t".to_string(),
        &"desc".to_string(),
        &vec![prop("x", true)],
        &vec![prop("y", false), prop("z", false)],
    );
    let params = def.parameters.unwrap();
    assert_eq!(params.required, strings(&["x"]));
    let names: Vec<&str> = params.properties.iter().map(|p| p.name.as_str()).collect();
    assert_eq!(names, vec!["x", "y", "z"]);
}

#[test]
fn sed_command() {
    let sed = SedCommand;
    let def = sed.command_definition();
    assert_eq!(def.name, "sed_command");
    assert_eq!(def.description, "Executes a sed command with the specified arguments.");
    match sed.check_arguments(&vec![]) {
        Err(ModelFunctionError::ExecutionError(m)) => assert_eq!(m, "No arguments provided for sed command"),
        other => panic!("unexpected {:?}", other),
    }
    assert!(sed.check_arguments(&strings(&["-n", "1p"])).is_ok());
}

fn registry() -> ChatTools {
    ChatTools::new(1, strings(&["grep"]), strings(&["grep", "cargo_check", "lsp_query"]))
}

#[test]
fn disabled_tools_are_not_offered() {
    let tools = registry();
    assert_eq!(tools.get_enabled_tools(1).unwrap(), Some(vec![1, 2]));
    assert_eq!(tools.get_tool_by_name(&"cargo_check".to_string(), 1).unwrap(), Some(1));
    assert_eq!(tools.get_tool_by_name(&"grep".to_string(), 1).unwrap(), None);
    assert_eq!(tools.get_tool_by_name(&"nothing".to_string(), 1).unwrap(), None);
}

#[test]
fn every_tool_disabled_gives_none() {
    let tools = ChatTools::new(1, strings(&["grep"]), strings(&["grep"]));
    assert_eq!(tools.get_enabled_tools(1).unwrap(), None);
}

#[test]
fn unknown_session_and_unknown_disabled_tool() {
    let mut tools = registry();
    assert!(matches!(tools.get_enabled_tools(2), Err(ToolConfigError::SessionConfigNotFound(2))));
    tools.upsert_configs(2, strings(&["lsp_query", "git"]));
    match tools.validate_session_tool_config(2) {
        Err(e @ ToolConfigError::DisabledToolNotFound(_)) => {
            assert_eq!(e.disabled_tool_message().unwrap(), "disabled tool not found: git")
        },
        other => panic!("unexpected {:?}", other),
    }
    assert!(ToolConfigError::SessionConfigNotFound(2).disabled_tool_message().is_none());
    tools.upsert_configs(2, vec![]);
    assert_eq!(tools.validate_session_tool_config(2).unwrap().len(), 0);
    assert_eq!(tools.get_enabled_tools(2).unwrap(), Some(vec![0, 1, 2]));
    assert_eq!(tools.get_enabled_tools(1).unwrap(), Some(vec![1, 2]));
}

#[test]
fn planning_a_tool_call() {
    let tools = registry();
    assert!(matches!(tools.plan_tool_call(&"lsp_query".to_string(), 1), ToolCallPlan::Run(2)));
    assert!(matches!(tools.plan_tool_call(&"grep".to_string(), 1), ToolCallPlan::ToolNotFound));
    assert!(matches!(tools.plan_tool_call(&"grep".to_string(), 9), ToolCallPlan::SessionConfigMissing));
    let broken = ChatTools::new(1, strings(&["git"]), strings(&["grep"]));
    assert!(matches!(
        broken.plan_tool_call(&"grep".to_string(), 1),
        ToolCallPlan::InvalidConfig(ToolConfigError::DisabledToolNotFound(ref t)) if t == "git"
    ));
}

#[test]
fn tool_call_messages() {
    assert_eq!(tool_not_found_error("x"), "Tool Call Error: Tool not found: x");
    assert_eq!(failed_tool_output_error("oops"), "Tool Call Error- output: oops");
    assert_eq!(tool_completion_content(None), "tool call complete");
    assert_eq!(tool_completion_content(Some("out".to_string())), "out");
}

#[test]
fn grep_report_joins_matches_and_errors() {
    let r = sazid::tools::grep_report(Some("a.rs:fn main()\n".to_string()), "walk error\n", "main");
    assert_eq!(r, "a.rs:fn main()\nwalk error\n");
}

#[test]
fn grep_report_notes_no_match() {
    let r = sazid::tools::grep_report(Some(String::new()), "", "xyz");
    assert_eq!(r, "No matches found for pattern: xyz");
}

#[test]
fn grep_report_replaces_unreadable_output() {
    let r = sazid::tools::grep_report(None, "e\n", "p");
    assert_eq!(r, "Error parsing grep output texte\n");
}

fn error_pair(session_id: i64, call: &str, error: &str) -> Vec<ToolMessage> {
    vec![
        ToolMessage::ChatToolError(format!("Chat Tool Error: {}", error)),
        ToolMessage::ToolCallError {
            session_id,
            tool_call_id: call.to_string(),
            text: format!("Tool Call Error: {}", error),
        },
    ]
}

#[test]
fn tool_call_steps() {
    let tools = registry();
    match tools.call_tool_step(&"lsp_query".to_string(), "c1".to_string(), 1) {
        ToolCallStep::Run { tool, tool_call_id, session_id, disabled_tools } => {
            assert_eq!((tool, tool_call_id.as_str(), session_id), (2, "c1", 1));
            assert_eq!(disabled_tools, strings(&["grep"]));
        },
        other => panic!("unexpected {:?}", other),
    }
    match tools.call_tool_step(&"grep".to_string(), "c2".to_string(), 1) {
        ToolCallStep::Send(m) => {
            assert_eq!(m, error_pair(1, "c2", "Tool Call Error: Tool not found: grep"))
        },
        other => panic!("unexpected {:?}", other),
    }
    match tools.call_tool_step(&"grep".to_string(), "c3".to_string(), 7) {
        ToolCallStep::Send(m) => assert_eq!(
            m,
            error_pair(7, "c3", "session config not found. session_id: {} tool_call_id: {}")
        ),
        other => panic!("unexpected {:?}", other),
    }
    let broken = ChatTools::new(1, strings(&["git"]), strings(&["grep"]));
    match broken.call_tool_step(&"grep".to_string(), "c4".to_string(), 1) {
        ToolCallStep::Send(m) => assert_eq!(m, error_pair(1, "c4", "disabled tool not found: git")),
        other => panic!("unexpected {:?}", other),
    }
}

#[test]
fn tool_results_and_completions() {
    assert_eq!(
        tool_result_messages(Ok(Some("out".to_string())), 3, "c".to_string()),
        vec![ToolMessage::ToolCallComplete { session_id: 3, tool_call_id: "c".to_string(), output: "out".to_string() }]
    );
    assert!(tool_result_messages(Ok(None), 3, "c".to_string()).is_empty());
    assert_eq!(tool_result_messages(Err("boom".to_string()), 3, "c".to_string()), error_pair(3, "c", "boom"));
    assert_eq!(
        complete_tool_call("done".to_string(), false, "c".to_string(), 4),
        vec![ToolMessage::ToolCallComplete { session_id: 4, tool_call_id: "c".to_string(), output: "done".to_string() }]
    );
    assert_eq!(
        complete_tool_call("bad".to_string(), true, "c".to_string(), 4),
        error_pair(4, "c", "Tool Call Error- output: bad")
    );
    assert_eq!(
        chat_tool_error_messages("e", None),
        vec![ToolMessage::ChatToolError("Chat Tool Error: e".to_string())]
    );
}
