use ycallr::cli::{
    full_url, http_exit_code, is_discovery_flag, is_global_flag, is_run_flag,
    looks_like_install_path, parse_import_openapi_args, parse_run_flags, path_to_words,
    split_command_and_flags, ImportRequest, OutputMode, RunFlags, EXIT_HTTP, EXIT_OK,
};
use ycallr::error::FfiError;

fn strings(v: &[&str]) -> Vec<String> {
    v.iter().map(|s| s.to_string()).collect()
}

#[test]
fn path_to_words_replaces_dots() {
    assert_eq!(path_to_words("repos.issues.create"), "repos issues create");
}

#[test]
fn full_url_joins_base_and_endpoint() {
    assert_eq!(
        full_url("https://api.example.com", "/v1/ping"),
        "https://api.example.com/v1/ping"
    );
    assert_eq!(
        full_url("https://api.example.com/", "/v1/ping"),
        "https://api.example.com/v1/ping"
    );
    assert_eq!(
        full_url("https://api.example.com", "v1/ping"),
        "https://api.example.com/v1/ping"
    );
}

#[test]
fn full_url_handles_empty_endpoint() {
    assert_eq!(
        full_url("https://api.example.com/", ""),
        "https://api.example.com"
    );
}

#[test]
fn full_url_strips_every_trailing_slash() {
    assert_eq!(full_url("https://h//", "x"), "https://h/x");
    assert_eq!(full_url("", "/x"), "/x");
}

#[test]
fn looks_like_install_path_detects_paths() {
    assert!(looks_like_install_path("~/apis/github.yaml"));
    assert!(looks_like_install_path("./profile.yaml"));
    assert!(looks_like_install_path("/tmp/profile.yml"));
    assert!(!looks_like_install_path("github"));
}

#[test]
fn looks_like_install_path_extensions_and_separators() {
    assert!(looks_like_install_path("github.yaml"));
    assert!(looks_like_install_path("github.yml"));
    assert!(looks_like_install_path("dir\\github"));
    assert!(looks_like_install_path("~github"));
    assert!(!looks_like_install_path("github.json"));
    assert!(!looks_like_install_path(""));
}

#[test]
fn split_command_and_flags_separates_segments() {
    let args = vec![
        "create".into(),
        "issue".into(),
        "--json".into(),
        "--owner=rust-lang".into(),
    ];
    let (cmd, flags) = split_command_and_flags(&args);
    assert_eq!(cmd, vec!["create", "issue"]);
    assert_eq!(flags, vec!["--json", "--owner=rust-lang"]);
}

#[test]
fn split_command_and_flags_keeps_order_and_global_flags() {
    let args = strings(&["--tree", "repos", "-v", "-h", "issues", "-x"]);
    let (cmd, flags) = split_command_and_flags(&args);
    assert_eq!(cmd, vec!["repos", "issues", "-x"]);
    assert_eq!(flags, vec!["--tree", "-v", "-h"]);
}

#[test]
fn discovery_and_run_flags() {
    assert!(is_discovery_flag("--help"));
    assert!(is_discovery_flag("--tree"));
    assert!(!is_discovery_flag("--json"));
    assert!(is_run_flag("--fail-on-error"));
    assert!(!is_run_flag("--list"));
    assert!(is_global_flag("--verbose"));
    assert!(is_global_flag("-v"));
}

#[test]
fn http_exit_code_respects_flags() {
    let fail_error = RunFlags {
        show_status: false,
        fail_on_error: true,
        fail_on_warn: false,
    };
    assert_eq!(http_exit_code(404, fail_error), EXIT_HTTP);
    assert_eq!(http_exit_code(200, fail_error), EXIT_OK);

    let fail_warn = RunFlags {
        show_status: false,
        fail_on_error: false,
        fail_on_warn: true,
    };
    assert_eq!(http_exit_code(301, fail_warn), EXIT_HTTP);
}

#[test]
fn http_exit_code_without_options_is_ok() {
    assert_eq!(http_exit_code(500, RunFlags::none()), EXIT_OK);
    let fail_error = RunFlags {
        show_status: true,
        fail_on_error: true,
        fail_on_warn: false,
    };
    assert_eq!(http_exit_code(399, fail_error), EXIT_OK);
    assert_eq!(http_exit_code(400, fail_error), EXIT_HTTP);
}

fn message(r: Result<(Vec<(String, String)>, OutputMode, RunFlags), FfiError>) -> String {
    match r {
        Ok(_) => panic!("expected an error"),
        Err(e) => e.to_string(),
    }
}

#[test]
fn parse_run_flags_rejects_invalid_tokens() {
    assert!(parse_run_flags(&strings(&["=bad"])).is_err());
    assert!(parse_run_flags(&strings(&["--unknown"])).is_err());
    assert!(parse_run_flags(&strings(&["bare"])).is_err());
}

#[test]
fn parse_run_flags_error_messages() {
    assert_eq!(
        message(parse_run_flags(&strings(&["=bad"]))),
        "invalid parameter '=bad'. Use --key=value"
    );
    assert_eq!(
        message(parse_run_flags(&strings(&["--unknown"]))),
        "unknown option '--unknown'. Use --key=value for parameters"
    );
    assert_eq!(
        message(parse_run_flags(&strings(&["--json", "bare", "--nope"]))),
        "unexpected argument 'bare'. Parameters use --key=value"
    );
}

#[test]
fn parse_run_flags_reads_params_and_options() {
    let (params, output, flags) = parse_run_flags(&strings(&[
        "--owner=rust-lang",
        "--json",
        "--status",
        "--owner=tokio",
        "--title=a=b",
        "--help",
        "-v",
        "--fail-on-warn",
    ]))
    .unwrap();
    assert_eq!(
        params,
        vec![
            ("owner".to_string(), "tokio".to_string()),
            ("title".to_string(), "a=b".to_string())
        ]
    );
    assert_eq!(output, OutputMode::Json);
    assert!(flags.show_status);
    assert!(flags.fail_on_warn);
    assert!(!flags.fail_on_error);
}

#[test]
fn parse_run_flags_pretty_wins_over_json() {
    let (_, output, _) = parse_run_flags(&strings(&["--pretty", "--json"])).unwrap();
    assert_eq!(output, OutputMode::Pretty);
    let (_, output, _) = parse_run_flags(&strings(&["--json", "--pretty"])).unwrap();
    assert_eq!(output, OutputMode::Pretty);
    let (params, output, flags) = parse_run_flags(&[]).unwrap();
    assert!(params.is_empty());
    assert_eq!(output, OutputMode::Default);
    assert_eq!(flags, RunFlags::none());
}

#[test]
fn import_openapi_args_help_and_options() {
    assert!(matches!(
        parse_import_openapi_args(&[]).unwrap(),
        ImportRequest::Help
    ));
    assert!(matches!(
        parse_import_openapi_args(&strings(&["-h"])).unwrap(),
        ImportRequest::Help
    ));
    let req = parse_import_openapi_args(&strings(&[
        "spec.json",
        "--name",
        "optapi",
        "--out",
        "out.yaml",
        "--tag",
        "default",
        "--base-url",
        "https://api.example.com",
        "--nest-by",
        "tag",
        "--short-names",
        "--preset",
        "none",
    ]))
    .unwrap();
    match req {
        ImportRequest::Import(o) => {
            assert_eq!(o.source, "spec.json");
            assert_eq!(o.name.as_deref(), Some("optapi"));
            assert_eq!(o.output.as_deref(), Some("out.yaml"));
            assert_eq!(o.tag.as_deref(), Some("default"));
            assert_eq!(o.base_url.as_deref(), Some("https://api.example.com"));
            assert_eq!(o.nest_by.as_deref(), Some("tag"));
            assert!(o.short_names);
            assert_eq!(o.preset.as_deref(), Some("none"));
        }
        ImportRequest::Help => panic!("expected an import"),
    }
}

#[test]
fn import_openapi_args_errors() {
    let err = |args: &[&str]| match parse_import_openapi_args(&strings(args)) {
        Err(e) => e.to_string(),
        Ok(_) => panic!("expected an error"),
    };
    assert_eq!(err(&["spec.json", "--name"]), "--name requires a value");
    assert_eq!(err(&["spec.json", "--out"]), "--out requires a path");
    assert_eq!(err(&["spec.json", "--base-url"]), "--base-url requires a URL");
    assert_eq!(
        err(&["spec.json", "--preset"]),
        "--preset requires auto, github, or none"
    );
    assert_eq!(
        err(&["spec.json", "--unknown"]),
        "unknown option '--unknown'. Run: ycallr import-openapi --help"
    );
}
