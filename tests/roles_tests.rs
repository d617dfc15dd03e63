use grok_cli::roles::{find_handoff_directive, parse_role_directive};

#[test]
fn test_parse_role_directive() {
    let result = parse_role_directive("@planner: How do I implement this?");
    assert!(result.is_some());
    let directive = result.unwrap();
    assert_eq!(directive.role, "planner");
    assert_eq!(directive.content, "How do I implement this?");

    let result = parse_role_directive("  @coder:  implement the plan  ");
    assert!(result.is_some());
    let directive = result.unwrap();
    assert_eq!(directive.role, "coder");
    assert_eq!(directive.content, "implement the plan");

    let result = parse_role_directive("Just a normal message");
    assert!(result.is_none());

    let result = parse_role_directive("@planner do this");
    assert!(result.is_none());

    let result = parse_role_directive("@code-auditor: check this");
    assert!(result.is_some());
    assert_eq!(result.unwrap().role, "code-auditor");
}

#[test]
fn role_names_are_lower_cased_and_checked() {
    assert_eq!(parse_role_directive("@Coder: go").unwrap().role, "coder");
    assert!(parse_role_directive("@: nothing").is_none());
    assert!(parse_role_directive("@bad role: x").is_none());
    assert_eq!(parse_role_directive("@a_b:").unwrap().content, "");
}

#[test]
fn test_find_handoff_directive() {
    let content = "Here's my plan:\n1. Do X\n2. Do Y\n\n@coder: Please implement this.";
    let result = find_handoff_directive(content);
    assert!(result.is_some());
    let directive = result.unwrap();
    assert_eq!(directive.role, "coder");
    assert_eq!(directive.content, "Please implement this.");

    let content = "I've finished planning. Hand off to @coder: implement the changes above.";
    let result = find_handoff_directive(content);
    assert!(result.is_some());
    assert_eq!(result.unwrap().role, "coder");

    let content = "This is just a regular response without any role mentions.";
    let result = find_handoff_directive(content);
    assert!(result.is_none());

    let content = "Contact me at user@example.com for more info.";
    let result = find_handoff_directive(content);
    assert!(result.is_none());
}

#[test]
fn handoff_takes_the_first_directive_line() {
    let content = "Plan:\n...\n@coder: implement it\n@auditor: check it";
    let d = find_handoff_directive(content).unwrap();
    assert_eq!(d.role, "coder");
    assert_eq!(d.content, "implement it");
    let d = find_handoff_directive("ok, handoff to @auditor: look").unwrap();
    assert_eq!(d.role, "auditor");
    assert_eq!(d.content, "look");
}
