use ycallr::catalog::EnvVarInfo;
use ycallr::os_keyring::Keyring;
use ycallr::env_secrets::{
    extract_global_options, load_env_files, load_stored_secrets, mode_is_shared, parse_env_file,
    plan_env_overrides, shared_paths, stored_secrets_from,
};

fn strings(v: &[&str]) -> Vec<String> {
    v.iter().map(|s| s.to_string()).collect()
}

fn get<'a>(m: &'a [(String, String)], k: &str) -> Option<&'a str> {
    m.iter().find(|(key, _)| key == k).map(|(_, v)| v.as_str())
}

#[test]
fn extract_global_options_splits_env_file() {
    let (args, opts) = extract_global_options(&[
        "--env-file".into(),
        "/tmp/a.env".into(),
        "-v".into(),
        "install".into(),
        "x.yaml".into(),
    ]);
    assert_eq!(opts.env_files, vec!["/tmp/a.env"]);
    assert_eq!(args, vec!["install", "x.yaml"]);
}

#[test]
fn extract_global_options_trailing_env_file_ends_list() {
    let (args, opts) =
        extract_global_options(&strings(&["api", "--verbose", "cmd", "--env-file"]));
    assert_eq!(args, vec!["api", "cmd"]);
    assert!(opts.env_files.is_empty());
    let (args, opts) = extract_global_options(&strings(&[
        "--env-file", "a", "x", "--env-file", "b",
    ]));
    assert_eq!(args, vec!["x"]);
    assert_eq!(opts.env_files, vec!["a", "b"]);
}

#[test]
fn load_env_file_parses_key_value() {
    let map = parse_env_file("secrets.env", "# comment\nAPI_TOKEN=abc\n").unwrap();
    assert_eq!(get(&map, "API_TOKEN"), Some("abc"));
}

#[test]
fn load_env_file_rejects_invalid_line() {
    let err = parse_env_file("bad.env", "NOEQUALS\n").unwrap_err();
    assert_eq!(
        err.to_string(),
        "--env-file 'bad.env': line 1: expected KEY=VALUE"
    );
}

#[test]
fn load_env_file_rejects_empty_key() {
    assert!(parse_env_file("bad.env", "=value\n").is_err());
}

#[test]
fn load_env_file_names_the_line_with_an_empty_key() {
    let err = parse_env_file("bad.env", "A=1\n\n =value\n").unwrap_err();
    assert_eq!(err.to_string(), "--env-file 'bad.env': line 3: empty key");
}

#[test]
fn parse_env_file_trims_lines_and_keys() {
    let map = parse_env_file("x.env", "  KEY = v a l  \r\n#x=y\nKEY2==\nKEY=last").unwrap();
    assert_eq!(get(&map, "KEY"), Some("last"));
    assert_eq!(get(&map, "KEY2"), Some("="));
    assert_eq!(map.len(), 2);
}

#[test]
fn load_env_files_merges_multiple_paths() {
    let paths = strings(&["a.env", "b.env"]);
    let reads = vec![Ok("A=1\n".to_string()), Ok("B=2\n".to_string())];
    let map = load_env_files(&paths, &reads).unwrap();
    assert_eq!(get(&map, "A"), Some("1"));
    assert_eq!(get(&map, "B"), Some("2"));
}

#[test]
fn load_env_files_later_file_wins() {
    let paths = strings(&["a.env", "b.env"]);
    let reads = vec![Ok("A=1\n".to_string()), Ok("B=2\nA=3\n".to_string())];
    let map = load_env_files(&paths, &reads).unwrap();
    assert_eq!(get(&map, "A"), Some("3"));
    assert_eq!(get(&map, "B"), Some("2"));
}

#[test]
fn load_env_files_reports_first_failure() {
    let paths = strings(&["a.env", "b.env"]);
    let reads = vec![Err("No such file".to_string()), Ok("bad".to_string())];
    assert_eq!(
        load_env_files(&paths, &reads).unwrap_err().to_string(),
        "failed to read --env-file 'a.env': No such file"
    );
    let reads = vec![Ok("bad".to_string()), Err("gone".to_string())];
    assert_eq!(
        load_env_files(&paths, &reads).unwrap_err().to_string(),
        "--env-file 'a.env': line 1: expected KEY=VALUE"
    );
}

#[test]
fn load_stored_secrets_reads_builtin_store() {
    let names = strings(&["YCALLR_TEST_SECRET_C", "SET_ELSEWHERE", "NO_FILE"]);
    let files = vec![
        Some("from-store".to_string()),
        Some("ignored".to_string()),
        None,
    ];
    let map = load_stored_secrets(&names, &strings(&["SET_ELSEWHERE"]), &files, &mut Keyring::new());
    assert_eq!(get(&map, "YCALLR_TEST_SECRET_C"), Some("from-store"));
    assert_eq!(get(&map, "SET_ELSEWHERE"), None);
    assert_eq!(get(&map, "NO_FILE"), None);
}

#[test]
fn env_overrides_prefer_files_then_store() {
    let file_envs = vec![("API_KEY".to_string(), "file".to_string())];
    let stored = vec![
        ("API_KEY".to_string(), "stored".to_string()),
        ("OTHER".to_string(), "stored-other".to_string()),
        ("IN_ENV".to_string(), "stored-env".to_string()),
    ];
    let envs = vec![
        EnvVarInfo { name: "API_KEY".into(), required: true },
        EnvVarInfo { name: "OTHER".into(), required: true },
        EnvVarInfo { name: "IN_ENV".into(), required: true },
        EnvVarInfo { name: "ASK".into(), required: true },
        EnvVarInfo { name: "ASK".into(), required: true },
        EnvVarInfo { name: "OPTIONAL".into(), required: false },
    ];
    let (overrides, prompts) =
        plan_env_overrides(&file_envs, &envs, &strings(&["IN_ENV"]), &stored);
    assert_eq!(get(&overrides, "API_KEY"), Some("file"));
    assert_eq!(get(&overrides, "OTHER"), Some("stored-other"));
    assert_eq!(get(&overrides, "IN_ENV"), None);
    assert_eq!(prompts, vec!["ASK"]);
}

#[test]
fn mode_is_shared_checks_group_and_other_bits() {
    assert!(!mode_is_shared(0o600));
    assert!(!mode_is_shared(0o100700));
    assert!(mode_is_shared(0o640));
    assert!(mode_is_shared(0o604));
    assert!(mode_is_shared(0o601));
}

#[test]
fn shared_paths_keeps_order_and_skips_unreadable() {
    let paths = strings(&["a.env", "b.env", "c.env", "d.env"]);
    let modes = vec![Some(0o644), None, Some(0o600), Some(0o660)];
    assert_eq!(shared_paths(&paths, &modes), strings(&["a.env", "d.env"]));
}

#[test]
fn stored_secrets_prefer_keyring_then_file() {
    let names = strings(&["A", "B", "C", "D", "E"]);
    let keyring = vec![
        Some("from-keyring".to_string()),
        Some(String::new()),
        None,
        None,
        Some("skipped".to_string()),
    ];
    let files = vec![
        Some("from-file-a".to_string()),
        Some("from-file-b\n".to_string()),
        Some("\n".to_string()),
        None,
        None,
    ];
    let map = stored_secrets_from(&names, &strings(&["E"]), &keyring, &files);
    assert_eq!(get(&map, "A"), Some("from-keyring"));
    assert_eq!(get(&map, "B"), Some("from-file-b"));
    assert_eq!(get(&map, "C"), None);
    assert_eq!(get(&map, "D"), None);
    assert_eq!(get(&map, "E"), None);
    assert_eq!(map.len(), 2);
}

#[test]
fn extracting_global_options_twice_changes_nothing() {
    let (args, opts) = extract_global_options(&strings(&[
        "--env-file", "a.env", "api", "-v", "cmd", "--verbose", "--env-file", "b.env", "--k=v",
    ]));
    assert_eq!(args, strings(&["api", "cmd", "--k=v"]));
    assert_eq!(opts.env_files, strings(&["a.env", "b.env"]));
    let (again, opts2) = extract_global_options(&args);
    assert_eq!(again, args);
    assert!(opts2.env_files.is_empty());
}
