use grok_cli::config::{default_rate_limits, get_settings_info, Config, RateLimitConfig, SettingsModalState};

#[test]
fn test_default_config() {
    let config = Config::default();
    assert_eq!(config.model, "grok-3");
    assert!(!config.sandbox_enabled);
    assert!(config.allowed_commands.is_empty());
}

#[test]
fn test_allow_command() {
    let mut config = Config::default();
    config.allow_command("ls".to_string(), "/home".to_string());
    assert!(config.is_command_allowed("ls", "/home"));
    assert!(!config.is_command_allowed("pwd", "/home"));
    assert!(!config.is_command_allowed("ls", "/tmp"));
}

#[test]
fn allowing_twice_in_one_directory_keeps_both() {
    let mut config = Config::default();
    config.allow_command("ls".to_string(), "/home".to_string());
    config.allow_command("pwd".to_string(), "/home".to_string());
    config.allow_command("cat".to_string(), "/tmp".to_string());
    assert!(config.is_command_allowed("ls", "/home"));
    assert!(config.is_command_allowed("pwd", "/home"));
    assert!(!config.is_command_allowed("cat", "/home"));
    assert!(config.is_command_allowed("cat", "/tmp"));
    assert_eq!(config.allowed_commands.len(), 2);
}

#[test]
fn default_roles_and_limits() {
    let config = Config::default();
    assert_eq!(config.get_role("coder").unwrap().model, "grok-code-fast-1");
    assert_eq!(config.get_role("planner").unwrap().model, "grok-4.1-fast-reasoning");
    assert!(config.get_role("nobody").is_none());
    assert_eq!(
        *config.get_rate_limit("grok-3").unwrap(),
        RateLimitConfig::new(131_072, 1_000_000, 300)
    );
    assert!(config.get_rate_limit("unknown-model").is_none());
    assert_eq!(default_rate_limits().len(), 9);
    assert!(config.settings.rate_limiter_enabled);
}

#[test]
fn settings_cursor_stays_in_range() {
    let mut s = SettingsModalState::new();
    assert_eq!(s.current_setting_key(), Some("rate_limiter_enabled"));
    s.move_up();
    assert_eq!(s.selected_index, 0);
    s.move_down();
    assert_eq!(s.selected_index, 0);
    assert_eq!(get_settings_info().len(), 1);
}
