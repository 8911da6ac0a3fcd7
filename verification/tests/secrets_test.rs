use std::io::Cursor;
use ycallr::os_keyring::{Keyring, KeyringCall};
use ycallr::secret_cmd::{read_secret_input, run_secret_command, secret_from_input, SecretCommand};
use ycallr::secrets::{
    check_secret_value, choose_secret, get_secret, keyring_confirms, parse_names_manifest, render_names_manifest,
    secret_file_value, set_secret, sort_names, unset_secret, update_names, validate_secret_name,
};

fn strings(v: &[&str]) -> Vec<String> {
    v.iter().map(|s| s.to_string()).collect()
}

#[test]
fn validate_secret_name_rejects_invalid() {
    assert!(validate_secret_name("GITHUB_TOKEN").is_ok());
    assert!(validate_secret_name("bad-name").is_err());
    assert!(validate_secret_name("").is_err());
}

#[test]
fn validate_secret_name_messages() {
    assert_eq!(
        validate_secret_name("").unwrap_err(),
        "secret name cannot be empty"
    );
    assert_eq!(
        validate_secret_name("a b").unwrap_err(),
        "secret name 'a b' must be ASCII alphanumeric or underscore"
    );
    assert!(validate_secret_name("abc_XYZ_019").is_ok());
    assert!(validate_secret_name("é").is_err());
}

#[test]
fn secret_help_and_list() {
    assert!(run_secret_command(&[]).is_ok());
    assert!(run_secret_command(&["--help".into()]).is_ok());
    assert!(run_secret_command(&["list".into()]).is_ok());
}

#[test]
fn secret_set_usage_errors() {
    assert!(run_secret_command(&["set".into()]).is_err());
    assert!(run_secret_command(&["unset".into()]).is_err());
    assert!(run_secret_command(&["nope".into()]).is_err());
}

#[test]
fn secret_unset_missing_is_ok() {
    match run_secret_command(&["unset".into(), "NOPE".into()]).unwrap() {
        SecretCommand::Unset(name) => {
            assert!(unset_secret(&name, &mut Keyring::new()).is_ok());
            assert!(unset_secret(&name, &mut Keyring::new()).is_ok());
            let names = update_names(&Vec::new(), &name, false);
            assert!(names.is_empty());
            assert_eq!(render_names_manifest(&names), None);
        }
        other => panic!("unexpected {:?}", other),
    }
}

#[test]
fn secret_command_requests_and_messages() {
    assert!(matches!(
        run_secret_command(&strings(&["set", "TOKEN"])).unwrap(),
        SecretCommand::Store(n) if n == "TOKEN"
    ));
    assert!(matches!(
        run_secret_command(&strings(&["unset", "TOKEN"])).unwrap(),
        SecretCommand::Unset(n) if n == "TOKEN"
    ));
    assert!(matches!(
        run_secret_command(&strings(&["-h", "x"])).unwrap(),
        SecretCommand::Help
    ));
    assert_eq!(
        run_secret_command(&strings(&["set", "A", "B"]))
            .unwrap_err()
            .to_string(),
        "usage: ycallr secret set <NAME>"
    );
    assert_eq!(
        run_secret_command(&strings(&["nope"])).unwrap_err().to_string(),
        "unknown secret subcommand 'nope'. Try: ycallr secret --help"
    );
}

#[test]
fn read_secret_input_parses_stdin_value() {
    let value = read_secret_input("TOKEN", Cursor::new("abc\n")).unwrap();
    assert_eq!(value, "abc");
    assert!(read_secret_input("TOKEN", Cursor::new("\n")).is_err());
}

#[test]
fn secret_from_input_trims_line_endings_only() {
    assert_eq!(secret_from_input("T", " a b \r\n\n").unwrap(), " a b ");
    assert_eq!(
        secret_from_input("T", "\r\n").unwrap_err().to_string(),
        "required environment variable 'T' cannot be empty"
    );
}

#[test]
fn secret_file_value_and_choice() {
    assert_eq!(secret_file_value("ghp_test\n").as_deref(), Some("ghp_test"));
    assert_eq!(secret_file_value("\n\r\n"), None);
    assert_eq!(
        choose_secret(Some("from-keyring".into()), Some("file".into())).as_deref(),
        Some("from-keyring")
    );
    assert_eq!(
        choose_secret(Some(String::new()), Some("file\n".into())).as_deref(),
        Some("file")
    );
    assert_eq!(choose_secret(None, None), None);
}

#[test]
fn secret_value_must_not_be_blank() {
    assert_eq!(
        check_secret_value("T", "  \t").unwrap_err(),
        "secret 'T' cannot be empty"
    );
    assert!(check_secret_value("T", " x ").is_ok());
}

#[test]
fn set_secret_writes_file_when_keyring_unavailable_or_fallback() {
    assert!(set_secret("YCALLR_TEST_SECRET_B", "secret-value", &mut Keyring::new()).is_ok());
    assert_eq!(
        get_secret("YCALLR_TEST_SECRET_B", Some("secret-value".to_string()), &mut Keyring::new()).as_deref(),
        Some("secret-value")
    );
    unset_secret("YCALLR_TEST_SECRET_B", &mut Keyring::new()).unwrap();
    assert!(get_secret("YCALLR_TEST_SECRET_B", None, &mut Keyring::new()).is_none());
    assert!(set_secret("bad-name", "x", &mut Keyring::new()).is_err());
    assert!(set_secret("OK", "   ", &mut Keyring::new()).is_err());
    assert!(unset_secret("bad-name", &mut Keyring::new()).is_err());
}

#[test]
fn names_manifest_add_remove_and_render() {
    let names = parse_names_manifest("B\n\nA\r\n");
    assert_eq!(names, vec!["B", "A"]);
    let added = update_names(&names, "C", true);
    assert_eq!(added, vec!["A", "B", "C"]);
    assert_eq!(update_names(&names, "B", true), names);
    let removed = update_names(&added, "B", false);
    assert_eq!(removed, vec!["A", "C"]);
    assert_eq!(render_names_manifest(&removed).as_deref(), Some("A\nC\n"));
    assert_eq!(render_names_manifest(&update_names(&strings(&["A"]), "A", false)), None);
}

#[test]
fn sort_names_orders_like_str() {
    let names = strings(&["b", "B", "a", "ab", "", "a"]);
    let mut expected = names.clone();
    expected.sort();
    assert_eq!(sort_names(&names), expected);
}

#[test]
fn keyring_write_confirmed_only_by_equal_read_back() {
    assert!(keyring_confirms(Some("v".to_string()), "v"));
    assert!(!keyring_confirms(Some("w".to_string()), "v"));
    assert!(!keyring_confirms(None, "v"));
}

#[test]
fn manifest_stays_sorted_and_removal_is_idempotent() {
    let names = strings(&["ALPHA", "GAMMA"]);
    let added = update_names(&names, "BETA", true);
    assert_eq!(added, strings(&["ALPHA", "BETA", "GAMMA"]));
    assert_eq!(update_names(&added, "BETA", true), added);
    let once = update_names(&added, "BETA", false);
    assert_eq!(once, strings(&["ALPHA", "GAMMA"]));
    assert_eq!(update_names(&once, "BETA", false), once);
}

fn s(v: &str) -> String {
    v.to_string()
}

#[test]
fn keyring_requests_name_the_secret_entry() {
    let mut k = Keyring::new();
    unset_secret("YCALLR_TEST_SECRET_D", &mut k).unwrap();
    match k.requests().as_slice() {
        [KeyringCall::Open(svc, user, true), KeyringCall::Delete(svc2, user2)] => {
            assert_eq!((svc.as_str(), user.as_str()), ("ycallr", "YCALLR_TEST_SECRET_D"));
            assert_eq!((svc2.as_str(), user2.as_str()), ("ycallr", "YCALLR_TEST_SECRET_D"));
        }
        [KeyringCall::Open(svc, user, false)] => {
            assert_eq!((svc.as_str(), user.as_str()), ("ycallr", "YCALLR_TEST_SECRET_D"));
        }
        other => panic!("unexpected requests {:?}", other),
    }

    let mut k = Keyring::new();
    let confirmed = set_secret("YCALLR_TEST_SECRET_D", "v1", &mut k).unwrap();
    let reqs = k.requests();
    assert_eq!(reqs[0], KeyringCall::Open(s("ycallr"), s("YCALLR_TEST_SECRET_D"), reqs.len() > 1));
    if reqs.len() > 1 {
        match &reqs[1] {
            KeyringCall::Write(svc, user, pw, _) => {
                assert_eq!((svc.as_str(), user.as_str(), pw.as_str()), ("ycallr", "YCALLR_TEST_SECRET_D", "v1"));
            }
            other => panic!("unexpected request {:?}", other),
        }
    }
    if confirmed {
        assert_eq!(reqs.len(), 3);
        assert_eq!(reqs[2], KeyringCall::Get(s("ycallr"), s("YCALLR_TEST_SECRET_D")));
    }

    let mut k = Keyring::new();
    assert!(set_secret("bad-name", "x", &mut k).is_err());
    assert!(k.requests().is_empty());

    let mut k = Keyring::new();
    let _ = get_secret("YCALLR_TEST_SECRET_D", None, &mut k);
    assert_eq!(k.requests()[0], KeyringCall::Open(s("ycallr"), s("YCALLR_TEST_SECRET_D"), k.requests().len() == 2));
}
