use ycallr::catalog::{
    collect_all_paths, env_var_from_fields, longest_command_path, tree_fits, format_subcommand_hint, or_empty, param_from_fields,
    resolve_command_path, suggest_paths, ApiCatalog, CommandInfo, EnvVarInfo, ParamInfo,
};
use ycallr::discovery::{
    api_help_lines, command_help_lines, command_tree_lines, direct_children_lines,
    format_param_type_label, prompt_type_hint,
};
use ycallr::error::FfiError;
use ycallr::plan::{plan_api_command, plan_invocation, ApiAction, Invocation};

fn children_of(cat: &ApiCatalog, prefix: &str) -> Result<Vec<String>, FfiError> {
    let mut lines = Vec::new();
    direct_children_lines(cat, prefix, &mut lines).map(|_| lines)
}

fn help_of(cat: &ApiCatalog, path: &str) -> Result<Vec<String>, FfiError> {
    let mut lines = Vec::new();
    command_help_lines(cat, path, &mut lines).map(|_| lines)
}

fn api_help_of(cat: &ApiCatalog) -> Result<Vec<String>, FfiError> {
    let mut lines = Vec::new();
    api_help_lines(cat, &mut lines).map(|_| lines)
}

fn strings(v: &[&str]) -> Vec<String> {
    v.iter().map(|s| s.to_string()).collect()
}

fn param(name: &str, ty: Option<&str>, values: &[&str], required: Option<bool>, desc: Option<&str>) -> ParamInfo {
    ParamInfo {
        name: name.to_string(),
        declared_type: ty.map(str::to_string),
        enum_values: strings(values),
        required,
        description: desc.map(str::to_string),
    }
}

fn command(leaf: bool, branch: bool, method: Option<&str>, endpoint: Option<&str>, desc: Option<&str>) -> CommandInfo {
    CommandInfo {
        is_leaf: leaf,
        is_branch: branch,
        method: method.map(str::to_string),
        endpoint: endpoint.map(str::to_string),
        description: desc.map(str::to_string),
        has_body: false,
        body_kind: None,
        params: Vec::new(),
        path_params: Vec::new(),
    }
}

/// A profile with `repos` (a group holding `list` and `issues`, itself a
/// group holding `open`) and a callable top-level `create-item`.
fn rich_catalog() -> ApiCatalog {
    let mut open = command(true, false, Some("POST"), Some("/repos/{owner}/{repo}/issues"), Some("Open an issue"));
    open.path_params = strings(&["owner", "repo"]);
    open.params = vec![
        param("owner", None, &[], Some(true), Some("Repository owner")),
        param("repo", None, &[], None, None),
        param("state", Some("string"), &["open", "closed"], Some(false), Some("Issue state")),
        param("title", Some("string"), &[], Some(true), Some("Title")),
    ];
    let mut create = command(true, false, Some("POST"), Some("items"), None);
    create.has_body = true;
    create.body_kind = Some("json".to_string());
    ApiCatalog {
        name: "richapi".to_string(),
        version: "1.0".to_string(),
        description: "Rich test API".to_string(),
        base_url: "https://example.com/".to_string(),
        env_vars: Ok(vec![EnvVarInfo { name: "API_KEY".to_string(), required: true }]),
        listings: vec![
            (String::new(), Ok(strings(&["repos", "create-item"]))),
            ("repos".to_string(), Ok(strings(&["list", "issues"]))),
            ("repos.issues".to_string(), Ok(strings(&["open"]))),
            ("repos.list".to_string(), Ok(Vec::new())),
            ("create-item".to_string(), Ok(Vec::new())),
            ("repos.issues.open".to_string(), Ok(Vec::new())),
        ],
        commands: vec![
            ("repos".to_string(), Ok(command(false, true, None, None, Some("Repositories")))),
            ("repos.list".to_string(), Ok(command(true, false, Some("GET"), Some("/repos"), Some("List repos")))),
            ("repos.issues".to_string(), Ok(command(false, true, None, None, None))),
            ("repos.issues.open".to_string(), Ok(open)),
            ("create-item".to_string(), Ok(create)),
        ],
    }
}

#[test]
fn collect_all_paths_walks_depth_first() {
    let cat = rich_catalog();
    let mut out = Vec::new();
    collect_all_paths(&cat, "", &mut out);
    assert_eq!(
        out,
        vec!["repos", "repos.list", "repos.issues", "repos.issues.open", "create-item"]
    );
}

#[test]
fn suggest_paths_finds_close_match() {
    let cat = rich_catalog();
    let suggestions = suggest_paths(&cat, "repos.issu");
    assert!(!suggestions.is_empty());
    let hint = format_subcommand_hint(&cat, "repos");
    assert!(hint.contains("Subcommands"));
}

#[test]
fn suggestions_are_ranked_and_hint_is_exact() {
    let cat = rich_catalog();
    assert_eq!(suggest_paths(&cat, "repos issu"), vec!["repos.issues", "repos.list"]);
    assert!(suggest_paths(&cat, "zzzzzzzzzz").is_empty());
    assert_eq!(
        format_subcommand_hint(&cat, "repos"),
        "Subcommands of 'repos': repos list, repos issues"
    );
    assert_eq!(format_subcommand_hint(&cat, "repos.list"), "");
}

#[test]
fn resolve_command_path_takes_longest_prefix() {
    let cat = rich_catalog();
    let (path, n) = resolve_command_path(&cat, &strings(&["repos", "issues", "open"])).unwrap();
    assert_eq!((path.as_str(), n), ("repos.issues.open", 3));
    let (path, n) = resolve_command_path(&cat, &strings(&["repos", "issues", "nope"])).unwrap();
    assert_eq!((path.as_str(), n), ("repos.issues", 2));
    assert_eq!(
        resolve_command_path(&cat, &[]).unwrap_err().to_string(),
        "missing command for API 'richapi'. Try: ycallr richapi --list"
    );
    assert_eq!(
        resolve_command_path(&cat, &strings(&["repo"])).unwrap_err().to_string(),
        "unknown command 'repo' for API 'richapi'. Did you mean: repos"
    );
    assert_eq!(
        resolve_command_path(&cat, &strings(&["qqqqqqqqqq"])).unwrap_err().to_string(),
        "unknown command 'qqqqqqqqqq' for API 'richapi'. Try: ycallr richapi --list"
    );
}

#[test]
fn direct_children_and_tree_lines() {
    let cat = rich_catalog();
    assert_eq!(
        children_of(&cat, "").unwrap(),
        vec![
            format!("  {} {:<32} {}{}", "       ", "repos", "Repositories", " (group)"),
            format!("  {} {:<32} {}{}", format!("{:<7}", "POST"), "create-item", "no description", ""),
        ]
    );
    assert_eq!(children_of(&cat, "repos.list").unwrap(), vec!["(no subcommands)"]);
    let mut lines = Vec::new();
    command_tree_lines(&cat, "repos", 0, &mut lines).unwrap();
    assert_eq!(
        lines,
        vec![
            "GET repos list: List repos",
            "- repos issues: no description",
            "  POST repos issues open: Open an issue",
        ]
    );
}

#[test]
fn format_param_type_label_includes_enum() {
    let p = param("state", Some("string"), &["open", "closed"], None, None);
    assert_eq!(format_param_type_label(Some(&p)), "string (open, closed)");
}

#[test]
fn format_param_type_label_number_and_boolean() {
    let number = param("n", Some("number"), &[], None, None);
    assert_eq!(format_param_type_label(Some(&number)), "number");
    let boolean = param("b", Some("boolean"), &[], None, None);
    assert_eq!(format_param_type_label(Some(&boolean)), "boolean");
    let array = param("a", Some("array"), &[], None, None);
    assert_eq!(format_param_type_label(Some(&array)), "array");
}

#[test]
fn type_labels_and_prompt_hints() {
    assert_eq!(format_param_type_label(None), "string");
    let other = param("o", Some("object"), &[""], None, None);
    assert_eq!(format_param_type_label(Some(&other)), "string");
    assert_eq!(prompt_type_hint(Some(&other)), "");
    let number = param("n", Some("number"), &["1", "2"], None, None);
    assert_eq!(prompt_type_hint(Some(&number)), " (number (1, 2))");
}

#[test]
fn command_help_of_a_call() {
    let cat = rich_catalog();
    let lines = help_of(&cat, "repos.issues.open").unwrap();
    assert_eq!(lines[0], "richapi repos issues open: Open an issue");
    assert_eq!(lines[1], "\nMethod: POST");
    assert_eq!(lines[2], "URL:    https://example.com/repos/{owner}/{repo}/issues");
    assert!(lines.contains(&"  export API_KEY=...  (required)".to_string()));
    assert!(lines.contains(&format!("  --{:<20} {} [{}]{}", "owner", "Repository owner", "string", " (required)")));
    assert!(lines.contains(&format!("  --{:<20} {} [{}]{}", "repo", "Path parameter", "string", " (required)")));
    assert!(lines.contains(&format!("  --{:<20} {} [{}]{}", "state", "Issue state", "string (open, closed)", "")));
    assert!(lines.contains(&format!("  --{:<20} {} [{}]{}", "title", "Title", "string", " (required)")));
    assert_eq!(lines[lines.len() - 2], "\nBody (implicit JSON):");
}

#[test]
fn command_help_of_groups_and_bodies() {
    let cat = rich_catalog();
    let lines = help_of(&cat, "repos").unwrap();
    assert_eq!(lines[1], "\nCommand group (not callable). Subcommands:");
    let lines = help_of(&cat, "create-item").unwrap();
    assert!(lines.contains(&"URL:    https://example.com/items".to_string()));
    assert!(lines.contains(&"\nBody (JSON, from profile):".to_string()));
    assert!(help_of(&cat, "missing").is_err());
    let help = api_help_of(&cat).unwrap();
    assert_eq!(help[0], "richapi v1.0: Rich test API");
    assert_eq!(help[6], "\nTop-level commands:");
    assert_eq!(help.len(), 9);
}

fn action(cat: &ApiCatalog, words: &[&str]) -> Result<ApiAction, FfiError> {
    plan_api_command(cat, &strings(words))
}

#[test]
fn plan_api_command_views_and_calls() {
    let cat = rich_catalog();
    assert!(matches!(action(&cat, &["--tree"]).unwrap(), ApiAction::Tree(p) if p.is_empty()));
    assert!(matches!(action(&cat, &["--list"]).unwrap(), ApiAction::List(p) if p.is_empty()));
    assert!(matches!(action(&cat, &[]).unwrap(), ApiAction::ApiHelp));
    assert!(matches!(action(&cat, &["repos", "--list"]).unwrap(), ApiAction::List(p) if p == "repos"));
    assert!(matches!(action(&cat, &["repos", "issues", "--help"]).unwrap(), ApiAction::CommandHelp(p) if p == "repos.issues"));
    match action(&cat, &["repos", "issues", "open", "--owner=me", "--pretty"]).unwrap() {
        ApiAction::Call(path, params, _, _) => {
            assert_eq!(path, "repos.issues.open");
            assert_eq!(params, vec![("owner".to_string(), "me".to_string())]);
        }
        _ => panic!("expected a call"),
    }
}

#[test]
fn group_command_not_callable_returns_usage() {
    let cat = rich_catalog();
    assert_eq!(
        action(&cat, &["repos", "issues"]).unwrap_err().to_string(),
        "'repos issues' is a command group, not callable. Subcommands of 'repos issues': repos issues open. Use --help for details."
    );
    assert_eq!(
        action(&cat, &["repos", "list", "extra", "path"]).unwrap_err().to_string(),
        "unexpected extra path segment(s) 'extra path' after 'repos list'. Try: ycallr richapi --list"
    );
    assert!(action(&cat, &["repos", "list", "--badflag"]).is_err());
}

#[test]
fn plan_invocation_top_level() {
    assert!(matches!(plan_invocation(&[]).unwrap(), Invocation::Help));
    assert!(matches!(plan_invocation(&strings(&["-V"])).unwrap(), Invocation::Version));
    assert!(matches!(plan_invocation(&strings(&["--list"])).unwrap(), Invocation::ListApis));
    assert!(matches!(plan_invocation(&strings(&["install", "-h"])).unwrap(), Invocation::InstallHelp));
    assert!(matches!(plan_invocation(&strings(&["install", "./a.yaml"])).unwrap(), Invocation::Install(p) if p == "./a.yaml"));
    assert_eq!(
        plan_invocation(&strings(&["install"])).unwrap_err().to_string(),
        "usage: ycallr install <path/to/profile.yaml>"
    );
    assert!(plan_invocation(&strings(&["install", "github"]))
        .unwrap_err()
        .to_string()
        .contains("Install requires a path"));
    assert!(matches!(plan_invocation(&strings(&["secret", "list"])).unwrap(), Invocation::Secret(a) if a == vec!["list"]));
    assert!(matches!(plan_invocation(&strings(&["import-openapi"])).unwrap(), Invocation::ImportOpenapi(a) if a.is_empty()));
    assert!(matches!(plan_invocation(&strings(&["github", "--list"])).unwrap(), Invocation::Api(n, a) if n == "github" && a == vec!["--list"]));
    assert!(matches!(plan_invocation(&strings(&["--list", "x"])).unwrap(), Invocation::Api(n, _) if n == "--list"));
}

#[test]
fn env_var_fields_default_to_required_and_empty_name() {
    let v = env_var_from_fields(Some("API_KEY".into()), Some(false));
    assert_eq!(v.name, "API_KEY");
    assert!(!v.required);
    let d = env_var_from_fields(None, None);
    assert_eq!(d.name, "");
    assert!(d.required);
    assert_eq!(or_empty(Some("x".into())), "x");
    assert_eq!(or_empty(None), "");
}

#[test]
fn param_fields_keep_only_text_enum_values() {
    let p = param_from_fields(
        "state".into(),
        Some("string".into()),
        Some(vec![Some("open".into()), None, Some("3".into())]),
        Some(true),
        None,
    );
    assert_eq!(p.name, "state");
    assert_eq!(p.declared_type.as_deref(), Some("string"));
    assert_eq!(p.enum_values, vec!["open", "3"]);
    assert_eq!(p.required, Some(true));
    assert_eq!(p.description, None);
    let q = param_from_fields("n".into(), None, None, None, Some("count".into()));
    assert!(q.enum_values.is_empty());
    assert_eq!(q.description.as_deref(), Some("count"));
}

#[test]
fn views_keep_lines_printed_before_an_error() {
    let mut cat = rich_catalog();
    // `repos` lists a child that the profile cannot describe.
    cat.listings[1] = ("repos".to_string(), Ok(strings(&["list", "ghost"])));
    let mut lines = Vec::new();
    let err = direct_children_lines(&cat, "repos", &mut lines).unwrap_err();
    assert_eq!(err.to_string(), "command 'repos.ghost' not found");
    assert_eq!(lines.len(), 1);
    assert!(lines[0].contains("repos list"));

    let mut help = Vec::new();
    let err = command_help_lines(&cat, "repos", &mut help).unwrap_err();
    assert_eq!(err.to_string(), "command 'repos.ghost' not found");
    assert_eq!(help[0], "richapi repos: Repositories");
    assert_eq!(help[1], "\nCommand group (not callable). Subcommands:");
    assert_eq!(help.len(), 3);

    let mut top = Vec::new();
    cat.listings[0] = (String::new(), Ok(strings(&["repos", "nowhere"])));
    let err = api_help_lines(&cat, &mut top).unwrap_err();
    assert_eq!(err.to_string(), "command 'nowhere' not found");
    assert_eq!(top.len(), 8);
    assert_eq!(top[6], "\nTop-level commands:");
}

#[test]
fn tree_keeps_lines_printed_before_an_error() {
    let mut cat = rich_catalog();
    cat.listings[2] = ("repos.issues".to_string(), Ok(strings(&["open", "ghost"])));
    let mut lines = Vec::new();
    let err = command_tree_lines(&cat, "repos", 0, &mut lines).unwrap_err();
    assert_eq!(err.to_string(), "command 'repos.issues.ghost' not found");
    assert_eq!(lines.len(), 3);
    assert!(lines[2].starts_with("  POST repos issues open"));
}

#[test]
fn longest_path_bounds_the_tree() {
    let cat = rich_catalog();
    assert_eq!(longest_command_path(&cat), "repos.issues.open".len());
    assert!(tree_fits(&cat, ""));
    assert!(tree_fits(&cat, "repos"));
}
