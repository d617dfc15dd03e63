use grok_cli::plugins::{shell_escape, PluginError, ToolPluginManager, YamlTool};
use grok_cli::tools::{generate_diff_snippet, get_all_tool_names, parse_duckduckgo_results, tool_kind, ToolKind};

fn tool(name: &str, command: &str) -> YamlTool {
    YamlTool {
        name: name.to_string(),
        description: "Echo input".to_string(),
        parameters: vec![],
        command: command.to_string(),
        working_dir: None,
        sandbox_aware: true,
        category: None,
        icon: Some("E".to_string()),
    }
}

#[test]
fn aliases_map_to_one_kind() {
    assert_eq!(tool_kind("Bash"), Some(ToolKind::Bash));
    assert_eq!(tool_kind("run_shell_command"), Some(ToolKind::Bash));
    assert_eq!(tool_kind("ask_multiple_choice"), Some(ToolKind::AskUser));
    assert_eq!(tool_kind("search_files"), Some(ToolKind::Grep));
    assert_eq!(tool_kind("bash"), None);
}

#[test]
fn plugin_registry_replaces_by_name() {
    let mut m = ToolPluginManager::new();
    assert_eq!(m.register(tool("echo_tool", "echo {{message}}")), Ok(()));
    assert_eq!(m.register(tool("echo_tool", "printf {{message}}")), Ok(()));
    assert_eq!(m.register(tool("", "x")), Err(PluginError::MissingName));
    assert_eq!(m.register(tool("y", "")), Err(PluginError::MissingCommand));
    assert_eq!(m.get_tools().len(), 1);
    assert_eq!(m.get_tool("echo_tool").unwrap().command, "printf {{message}}");
    assert!(m.contains_tool("echo_tool"));
    assert!(m.get_tool("other").is_none());
    let d = m.get_tool_descriptions();
    assert_eq!(d, vec![("echo_tool".to_string(), "Echo input".to_string(), Some("E".to_string()))]);
    let names = get_all_tool_names(&m);
    assert_eq!(names.len(), 13);
    assert_eq!(names[0], "Bash");
    assert_eq!(names[12], "echo_tool");
    m.clear();
    assert!(m.get_tools().is_empty());
}

#[test]
fn shell_escape_quotes_single_quotes() {
    assert_eq!(shell_escape("hello world"), "'hello world'");
    assert_eq!(shell_escape("it's"), "'it'\"'\"'s'");
}

#[test]
fn diff_snippet_lists_removed_then_added_lines() {
    assert_eq!(
        generate_diff_snippet("foo\nbar", "baz"),
        "@@ -2 lines +1 lines @@\n-  foo\n-  bar\n+  baz"
    );
    assert_eq!(generate_diff_snippet("", ""), "@@ -0 lines +0 lines @@");
}

#[test]
fn search_page_is_summarized() {
    let html = "<div>\n<a class=\"result__a\" href=\"x\">Rust &amp; Verus</a>\n<a class=\"result__snippet\" href=\"x\">A <b>verified</b> tool</a>\n<a class=\"result__a\" href=\"y\"><span>x</span></a>\n";
    assert_eq!(parse_duckduckgo_results(html), "\u{2022} Rust & Verus\n  A verified\n");
    assert_eq!(parse_duckduckgo_results("<html></html>"), "No results found or unable to parse search results.");
}

#[test]
fn ignore_file_lines_become_patterns() {
    let p = grok_cli::tools::parse_ignore_file("# comment\n\n  target  \n*.log\n");
    assert_eq!(p, vec!["target".to_string(), "*.log".to_string()]);
    assert_eq!(grok_cli::tools::default_ignore_patterns().len(), 8);
}
