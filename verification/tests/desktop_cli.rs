use dreadstep_bevy::cli::{parse_options, DesktopOptions, ParseResult};

fn args(list: &[&str]) -> Vec<String> {
    list.iter().map(|s| s.to_string()).collect()
}

#[test]
fn desktop_cli_parser_rejects_duplicates_and_accepts_smoke_options() {
    let parsed = parse_options(args(&["--seed", "12", "--log-dir", "logs", "--smoke"]))
        .expect("options parse");
    assert_eq!(
        parsed,
        ParseResult::Options(DesktopOptions {
            seed: 12,
            log_dir: "logs".to_string(),
            smoke: true,
            ..DesktopOptions::default()
        })
    );
    assert!(parse_options(args(&["--smoke", "--smoke"])).is_err());
    assert!(parse_options(args(&["--seed"])).is_err());
    assert!(parse_options(args(&["--help", "--unknown"])).is_err());
    assert!(parse_options(args(&["--help", "--help"])).is_err());
    assert!(parse_options(args(&["--log-dir", "--smoke"])).is_err());
}

#[test]
fn tests_cli_parser_rejects_duplicates_and_accepts_smoke_options() {
    let parsed = parse_options(args(&["--seed", "12", "--log-dir", "logs", "--smoke"]))
        .expect("options parse");
    assert_eq!(
        parsed,
        ParseResult::Options(DesktopOptions {
            seed: 12,
            procedural: false,
            depth: 1,
            log_dir: "logs".to_string(),
            smoke: true,
        })
    );
    assert!(parse_options(args(&["--smoke", "--smoke"])).is_err());
    assert!(parse_options(args(&["--seed"])).is_err());
    assert!(parse_options(args(&["--help", "--unknown"])).is_err());
    assert!(parse_options(args(&["--help", "--help"])).is_err());
    assert!(parse_options(args(&["--log-dir", "--smoke"])).is_err());
    let procedural = parse_options(args(&["--procedural", "--depth", "4"]))
        .expect("procedural options parse");
    assert_eq!(
        procedural,
        ParseResult::Options(DesktopOptions {
            procedural: true,
            depth: 4,
            ..DesktopOptions::default()
        })
    );
    assert!(parse_options(args(&["--procedural", "--procedural"])).is_err());
    assert!(parse_options(args(&["--depth"])).is_err());
}

#[test]
fn cli_reports_each_error_message() {
    let err = |list: &[&str]| parse_options(args(list)).unwrap_err();
    assert_eq!(err(&["--smoke", "--smoke"]), "duplicate --smoke");
    assert_eq!(err(&["--seed"]), "--seed requires a value");
    assert_eq!(err(&["--seed", "--smoke"]), "--seed requires a value");
    assert_eq!(err(&["--seed", "-1"]), "--seed must be an unsigned integer");
    assert_eq!(err(&["--seed", "18446744073709551616"]), "--seed must be an unsigned integer");
    assert_eq!(err(&["--depth", "4294967296"]), "--depth must be an unsigned integer");
    assert_eq!(err(&["--depth", ""]), "--depth must be an unsigned integer");
    assert_eq!(err(&["--log-dir", ""]), "--log-dir requires a path");
    assert_eq!(err(&["--verbose"]), "unknown argument --verbose");
    assert_eq!(err(&["--help", "--help"]), "duplicate --help");
    assert_eq!(err(&["--seed", "1", "--seed", "2"]), "duplicate --seed");
}

#[test]
fn cli_accepts_help_limits_and_plus_sign() {
    assert_eq!(parse_options(args(&["-h"])).unwrap(), ParseResult::Help);
    assert_eq!(parse_options(args(&["--seed", "5", "--help"])).unwrap(), ParseResult::Help);
    let parsed = parse_options(args(&["--seed", "18446744073709551615", "--depth", "+4294967295"]))
        .unwrap();
    assert_eq!(
        parsed,
        ParseResult::Options(DesktopOptions {
            seed: u64::MAX,
            depth: u32::MAX,
            ..DesktopOptions::default()
        })
    );
    assert_eq!(
        parse_options(Vec::new()).unwrap(),
        ParseResult::Options(DesktopOptions::default())
    );
    assert_eq!(DesktopOptions::default().seed, 7);
    assert_eq!(DesktopOptions::default().log_dir, "dreadstep-logs");
}
