use std::collections::HashSet;

use windbgr_mcp::mcp::registry::ToolName;

#[test]
fn tool_names_are_unique() {
    let tools = ToolName::all();
    let names: HashSet<_> = tools.iter().map(|t| t.as_str()).collect();
    assert_eq!(names.len(), tools.len(), "duplicate tool name in registry");
}

#[test]
fn registry_covers_all_known_names() {
    let tools = ToolName::all();
    let names: HashSet<&str> = tools.iter().map(|t| t.as_str()).collect();
    for n in [
        "process_find_by_module",
        "process_list",
        "debug_attach",
        "debug_launch",
        "debug_command",
        "debug_control",
        "debug_output",
        "debug_status",
        "debug_list_sessions",
        "debug_wait_break",
        "debug_stop",
    ] {
        assert!(names.contains(n), "missing tool: {n}");
    }
}

#[test]
fn names_parse_back_to_their_tool() {
    for t in ToolName::all() {
        assert_eq!(ToolName::parse(t.as_str()), Some(t));
    }
    assert_eq!(ToolName::parse("debug_nothing"), None);
    assert_eq!(ToolName::parse("DEBUG_STOP"), None);
}

#[test]
fn read_only_tools_are_exactly_the_observers() {
    let ro: Vec<&str> = ToolName::all()
        .into_iter()
        .filter(|t| t.read_only())
        .map(|t| t.as_str())
        .collect();
    assert_eq!(
        ro,
        vec![
            "process_find_by_module",
            "process_list",
            "debug_output",
            "debug_status",
            "debug_list_sessions",
            "debug_wait_break"
        ]
    );
}

#[test]
fn every_tool_has_its_catalog_description() {
    assert_eq!(
        ToolName::DebugStatus.description(),
        "Return the current state of a debugging session."
    );
    assert!(ToolName::DebugStop
        .description()
        .starts_with("Stop a debugging session. `detach` sends `qd`"));
    for t in ToolName::all() {
        assert!(!t.description().is_empty());
    }
}
