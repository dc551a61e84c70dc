use kwybars::cli::{parse_from_iter, usage, CliArgError, CliOptions};

fn args(items: &[&str]) -> Vec<String> {
    items.iter().map(|s| s.to_string()).collect()
}

#[test]
fn parses_long_config_flag() {
    let parsed = parse_from_iter(args(&["--config", "/tmp/custom.toml"]));
    assert_eq!(
        parsed,
        Ok(CliOptions {
            config_path: Some("/tmp/custom.toml".to_string()),
            show_help: false,
        })
    );
}

#[test]
fn parses_equals_config_flag() {
    let parsed = parse_from_iter(args(&["--config=/tmp/custom.toml"]));
    assert_eq!(
        parsed,
        Ok(CliOptions {
            config_path: Some("/tmp/custom.toml".to_string()),
            show_help: false,
        })
    );
}

#[test]
fn parses_short_help_flag() {
    let parsed = parse_from_iter(args(&["-h"]));
    assert_eq!(
        parsed,
        Ok(CliOptions {
            config_path: None,
            show_help: true,
        })
    );
}

#[test]
fn rejects_unknown_argument() {
    let parsed = parse_from_iter(args(&["--wat"]));
    assert!(parsed.is_err());
}

#[test]
fn empty_command_line_gives_defaults() {
    assert_eq!(parse_from_iter(Vec::new()), Ok(CliOptions::default()));
    assert_eq!(
        CliOptions::default(),
        CliOptions {
            config_path: None,
            show_help: false
        }
    );
}

#[test]
fn unknown_argument_names_the_argument() {
    let err = parse_from_iter(args(&["-h", "--wat", "-c"])).unwrap_err();
    assert_eq!(err.message(), "unknown argument: --wat");
}

#[test]
fn short_config_flag_without_value_is_refused() {
    let err = parse_from_iter(args(&["-c"])).unwrap_err();
    assert_eq!(err.message(), "missing value for --config");
    let err = parse_from_iter(args(&["--help", "--config"])).unwrap_err();
    assert_eq!(err.message(), "missing value for --config");
}

#[test]
fn empty_equals_config_is_refused() {
    let err = parse_from_iter(args(&["--config="])).unwrap_err();
    assert_eq!(err.message(), "missing value for --config");
}

#[test]
fn config_value_is_taken_verbatim() {
    let parsed = parse_from_iter(args(&["-c", "-h"]));
    assert_eq!(
        parsed,
        Ok(CliOptions {
            config_path: Some("-h".to_string()),
            show_help: false,
        })
    );
}

#[test]
fn later_config_wins_and_help_stays() {
    let parsed = parse_from_iter(args(&["--config=/a.toml", "--help", "-c", "/b.toml"]));
    assert_eq!(
        parsed,
        Ok(CliOptions {
            config_path: Some("/b.toml".to_string()),
            show_help: true,
        })
    );
}

#[test]
fn split_command_line_reads_as_merge() {
    // the first part sets a path and help, the second replaces the path
    let first = args(&["-h", "--config", "/a.toml"]);
    let second = args(&["--config=/b.toml"]);
    let mut whole = first.clone();
    whole.extend(second.clone());
    let a = parse_from_iter(first).unwrap();
    let b = parse_from_iter(second).unwrap();
    let merged = CliOptions {
        config_path: b.config_path.or(a.config_path),
        show_help: a.show_help || b.show_help,
    };
    assert_eq!(parse_from_iter(whole), Ok(merged));
    // an error in the second part is the error of the whole
    let err = parse_from_iter(args(&["-h", "oops"])).unwrap_err();
    assert_eq!(err.message(), "unknown argument: oops");
}

#[test]
fn config_forms_agree_in_context() {
    let spaced = parse_from_iter(args(&["-h", "--config", "/x y.toml", "--help"]));
    let joined = parse_from_iter(args(&["-h", "--config=/x y.toml", "--help"]));
    assert_eq!(spaced, joined);
    assert_eq!(
        joined,
        Ok(CliOptions {
            config_path: Some("/x y.toml".to_string()),
            show_help: true,
        })
    );
}

#[test]
fn arg_error_keeps_its_message() {
    let err = CliArgError::new("something went wrong".to_string());
    assert_eq!(err.message(), "something went wrong");
}

#[test]
fn usage_names_the_binary() {
    assert_eq!(
        usage("kwybars"),
        "Usage: kwybars [--config <path>]\n       kwybars [--help]\n\nOptions:\n  -c, --config <path>  Load config.toml from a specific path\n  -h, --help           Show this help message"
    );
}
