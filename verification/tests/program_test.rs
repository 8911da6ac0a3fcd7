use ycallr::cli::{parse_import_openapi_args, ImportRequest};
use ycallr::help::{
    import_openapi_help_lines, install_help_lines, program_help_lines, secret_help_lines,
};
use ycallr::plan::{plan_invocation, Invocation};
use ycallr::secret_cmd::{run_secret_command, SecretCommand};

fn strings(v: &[&str]) -> Vec<String> {
    v.iter().map(|s| s.to_string()).collect()
}

fn text(lines: Vec<String>) -> String {
    lines.join("\n")
}

#[test]
fn help_flag_shows_usage() {
    assert!(matches!(plan_invocation(&strings(&["--help"])).unwrap(), Invocation::Help));
    let out = text(program_help_lines());
    assert!(out.contains("ycallr install"));
    assert!(out.contains("import-openapi"));
}

#[test]
fn no_args_shows_help() {
    assert!(matches!(plan_invocation(&[]).unwrap(), Invocation::Help));
    assert!(text(program_help_lines()).contains("Usage:"));
}

#[test]
fn install_requires_path() {
    let err = plan_invocation(&strings(&["install"])).unwrap_err();
    assert!(err.to_string().contains("usage: ycallr install"));
}

#[test]
fn install_rejects_profile_name_without_path() {
    let err = plan_invocation(&strings(&["install", "github"])).unwrap_err();
    assert!(err.to_string().contains("Install requires a path"));
}

#[test]
fn install_help() {
    assert!(matches!(
        plan_invocation(&strings(&["install", "--help"])).unwrap(),
        Invocation::InstallHelp
    ));
    assert!(text(install_help_lines()).contains("ycallr install"));
}

#[test]
fn import_openapi_help() {
    match plan_invocation(&strings(&["import-openapi", "--help"])).unwrap() {
        Invocation::ImportOpenapi(rest) => {
            assert!(matches!(
                parse_import_openapi_args(&rest).unwrap(),
                ImportRequest::Help
            ));
        }
        other => panic!("unexpected {:?}", other),
    }
    assert!(text(import_openapi_help_lines()).contains("import-openapi"));
}

#[test]
fn secret_help() {
    match plan_invocation(&strings(&["secret", "--help"])).unwrap() {
        Invocation::Secret(rest) => {
            assert!(matches!(run_secret_command(&rest).unwrap(), SecretCommand::Help));
        }
        other => panic!("unexpected {:?}", other),
    }
    assert!(text(secret_help_lines()).contains("secret set"));
}
