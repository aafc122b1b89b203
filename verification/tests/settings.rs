use rust_study::settings::{
    default_db, default_log_level, default_port, effective_log_filter, parse_command, AppConfig,
    DemoCommand,
};

fn args(words: &[&str]) -> Vec<String> {
    words.iter().map(|w| w.to_string()).collect()
}

#[test]
fn defaults() {
    assert_eq!(default_log_level(), "info");
    assert_eq!(default_port(), 8080);
    assert_eq!(default_db(), "sqlite://:memory:");
    let c = AppConfig::with_defaults();
    assert_eq!(c.server_port, 8080);
}

#[test]
fn log_filter_prefers_rust_log() {
    let c = AppConfig::with_defaults();
    assert_eq!(effective_log_filter(Some("debug".to_string()), &c), "debug");
    assert_eq!(effective_log_filter(None, &c), "info");
}

#[test]
fn parses_subcommands() {
    assert!(matches!(parse_command(&args(&["demo"])), DemoCommand::Help));
    assert!(matches!(parse_command(&args(&["demo", "help"])), DemoCommand::Help));
    assert!(matches!(parse_command(&args(&["demo", "env"])), DemoCommand::Env));
    assert!(matches!(parse_command(&args(&["demo", "thread"])), DemoCommand::Thread));
    assert!(matches!(parse_command(&args(&["demo", "config"])), DemoCommand::Config));
    match parse_command(&args(&["demo", "file"])) {
        DemoCommand::File(p) => assert_eq!(p, "demo.txt"),
        _ => panic!("expected file"),
    }
    match parse_command(&args(&["demo", "file", "x.txt"])) {
        DemoCommand::File(p) => assert_eq!(p, "x.txt"),
        _ => panic!("expected file"),
    }
    match parse_command(&args(&["demo", "bogus"])) {
        DemoCommand::Unknown(u) => assert_eq!(u, "bogus"),
        _ => panic!("expected unknown"),
    }
}
