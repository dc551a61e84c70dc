use kwybars::control::{
    already_active_message, backup_file_name, no_parent_error, parse_args, parse_switch_config,
    should_back_up, switched_message, target_missing_error, target_not_file_error, temp_link_name,
    usage, Command, ControlError,
};

fn args(items: &[&str]) -> Vec<String> {
    items.iter().map(|s| s.to_string()).collect()
}

fn usage_failure(reason: &str) -> ControlError {
    ControlError::Usage(format!("{reason}\n\n{}", usage()))
}

#[test]
fn parses_switch_config_command() {
    let parsed = parse_args(args(&[
        "switch-config",
        "--active",
        "/tmp/current.toml",
        "/tmp/alt.toml",
    ]));

    let Ok(Command::SwitchConfig { target, active }) = parsed else {
        panic!("expected switch-config command");
    };
    assert_eq!(target, "/tmp/alt.toml".to_string());
    assert_eq!(active, Some("/tmp/current.toml".to_string()));
}

#[test]
fn parses_help_command() {
    let parsed = parse_args(args(&["--help"]));
    assert!(matches!(parsed, Ok(Command::Help)));
}

#[test]
fn no_command_or_help_word_gives_help() {
    assert_eq!(parse_args(Vec::new()), Ok(Command::Help));
    assert_eq!(parse_args(args(&["help", "whatever"])), Ok(Command::Help));
    assert_eq!(parse_args(args(&["-h"])), Ok(Command::Help));
}

#[test]
fn unknown_command_is_refused_with_usage() {
    assert_eq!(
        parse_args(args(&["frobnicate"])),
        Err(usage_failure("unknown command: frobnicate"))
    );
}

#[test]
fn switch_config_without_target_is_refused() {
    assert_eq!(
        parse_args(args(&["switch-config", "--active", "/a.toml"])),
        Err(usage_failure("missing target config path"))
    );
}

#[test]
fn second_target_is_refused() {
    assert_eq!(
        parse_args(args(&["switch-config", "/a.toml", "/b.toml"])),
        Err(usage_failure("unexpected extra argument: /b.toml"))
    );
}

#[test]
fn active_without_value_is_refused() {
    assert_eq!(
        parse_args(args(&["switch-config", "/t.toml", "-a"])),
        Err(usage_failure("missing value for --active"))
    );
    assert_eq!(
        parse_args(args(&["switch-config", "--active=", "/t.toml"])),
        Err(usage_failure("missing value for --active"))
    );
}

#[test]
fn help_inside_switch_config_wins_over_later_errors() {
    assert_eq!(
        parse_args(args(&["switch-config", "--help", "/a", "/b", "/c"])),
        Ok(Command::Help)
    );
    assert_eq!(
        parse_switch_config(args(&["/a", "/b", "-h"])),
        Err(usage_failure("unexpected extra argument: /b"))
    );
}

#[test]
fn active_and_target_come_in_any_order() {
    let expected = Ok(Command::SwitchConfig {
        target: "/t.toml".to_string(),
        active: Some("/a.toml".to_string()),
    });
    assert_eq!(parse_switch_config(args(&["--active", "/a.toml", "/t.toml"])), expected);
    assert_eq!(parse_switch_config(args(&["/t.toml", "--active", "/a.toml"])), expected);
    assert_eq!(parse_switch_config(args(&["--active=/a.toml", "/t.toml"])), expected);
    assert_eq!(parse_switch_config(args(&["/t.toml", "-a", "/a.toml"])), expected);
}

#[test]
fn later_active_replaces_earlier() {
    assert_eq!(
        parse_switch_config(args(&["-a", "/one", "/t", "--active=/two"])),
        Ok(Command::SwitchConfig {
            target: "/t".to_string(),
            active: Some("/two".to_string()),
        })
    );
}

#[test]
fn usage_text_is_fixed() {
    assert!(usage().starts_with("Usage:\n  kwybarsctl switch-config [--active <path>] <target-config.toml>\n"));
    assert!(usage().ends_with("  -h, --help            Show this help message"));
}

#[test]
fn switch_messages() {
    assert_eq!(
        already_active_message("/cfg/alt.toml"),
        "active config already points to /cfg/alt.toml"
    );
    assert_eq!(
        switched_message("/cfg/config.toml", "/cfg/alt.toml"),
        "switched active config /cfg/config.toml -> /cfg/alt.toml"
    );
    assert_eq!(
        no_parent_error("/"),
        ControlError::InvalidTarget("active config path has no parent directory: /".to_string())
    );
    assert_eq!(
        target_missing_error("/nope.toml"),
        ControlError::InvalidTarget("target config does not exist: /nope.toml".to_string())
    );
    assert_eq!(
        target_not_file_error("/etc"),
        ControlError::InvalidTarget("target config is not a file: /etc".to_string())
    );
}

#[test]
fn link_and_backup_names() {
    assert_eq!(temp_link_name(4242), ".kwybarsctl-4242.tmp");
    assert_eq!(temp_link_name(0), ".kwybarsctl-0.tmp");
    assert_eq!(backup_file_name(Some("config.toml")), "config.toml.bak");
    assert_eq!(backup_file_name(Some("alt")), "alt.bak");
    assert_eq!(backup_file_name(None), "config.toml.bak");
}

#[test]
fn only_regular_files_are_backed_up() {
    assert!(should_back_up(false, true));
    assert!(!should_back_up(true, true));
    assert!(!should_back_up(true, false));
    assert!(!should_back_up(false, false));
}

#[test]
fn control_error_message() {
    assert_eq!(ControlError::Usage("u".to_string()).message(), "u");
    assert_eq!(target_missing_error("/x").message(), "target config does not exist: /x");
}
