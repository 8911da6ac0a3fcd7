use ycallr::cli::OutputMode;
use ycallr::help::{import_openapi_help_lines, program_help_lines, secret_help_lines};
use ycallr::output::{installed_api_line, missing_params_error, response_text, wants_verbose};

#[test]
fn print_response_modes() {
    assert_eq!(response_text("{}", Some("ok".into()), OutputMode::Default).as_deref(), Some("ok"));
    assert_eq!(response_text(r#"{"a":1}"#, None, OutputMode::Json).as_deref(), Some(r#"{"a":1}"#));
    assert_eq!(
        response_text(r#"{"a":1}"#, None, OutputMode::Pretty).as_deref(),
        Some("{\n  \"a\": 1\n}")
    );
    assert_eq!(response_text("not-json", None, OutputMode::Pretty).as_deref(), Some("not-json"));
    assert_eq!(response_text("{}", None, OutputMode::Default), None);
}

#[test]
fn installed_line_and_messages() {
    assert_eq!(installed_api_line("testapi", "Minimal test API"), format!("  {:<25} {}", "testapi", "Minimal test API"));
    assert_eq!(
        missing_params_error(&["owner".to_string(), "repo".to_string()]).to_string(),
        "missing required parameters: owner, repo. Pass values with --key=value"
    );
    assert!(wants_verbose(&["install".to_string(), "-v".to_string()]));
    assert!(!wants_verbose(&["install".to_string()]));
}

#[test]
fn help_texts_name_the_commands() {
    let help = program_help_lines().join("\n");
    assert!(help.contains("ycallr install"));
    assert!(help.contains("import-openapi"));
    assert!(help.contains("Usage:"));
    assert!(secret_help_lines().join("\n").contains("secret set"));
    assert!(secret_help_lines().join("\n").contains("service 'ycallr'"));
    assert!(import_openapi_help_lines().join("\n").contains("import-openapi"));
}
