use sdkcheck::env_map::EnvMap;
use sdkcheck::secrets::SecretSet;

#[test]
fn masks_secret_values() {
    let mut secrets = SecretSet::default();
    secrets.add_value("OPENAI_API_KEY", "sk-test-value");

    assert_eq!(secrets.mask("token=sk-test-value"), "token=[REDACTED]");
}

#[test]
fn tracks_missing_secret_names() {
    let mut secrets = SecretSet::default();
    secrets.add_missing("OPENAI_API_KEY");

    assert_eq!(secrets.missing_names(), vec!["OPENAI_API_KEY"]);
}

#[test]
fn values_replace_missing_names_and_stay_sorted() {
    let mut secrets = SecretSet::new();
    secrets.add_missing("B_KEY");
    secrets.add_missing("A_KEY");
    secrets.add_missing("B_KEY");
    assert_eq!(secrets.missing_names(), vec!["A_KEY", "B_KEY"]);
    secrets.add_value("B_KEY", "bbb");
    secrets.add_value("A_KEY", "");
    assert_eq!(secrets.names(), vec!["B_KEY"]);
    assert_eq!(secrets.missing_names(), vec!["A_KEY"]);
    secrets.add_value("C_KEY", "ccc");
    secrets.add_value("B_KEY", "bb2");
    assert_eq!(secrets.names(), vec!["B_KEY", "C_KEY"]);
    assert_eq!(
        secrets.env_pairs().pairs(),
        vec![("B_KEY".to_string(), "bb2".to_string()), ("C_KEY".to_string(), "ccc".to_string())]
    );
    assert!(secrets.has_all(&["C_KEY", "B_KEY"]));
    assert!(!secrets.has_all(&["C_KEY", "A_KEY"]));
    assert!(secrets.has_all(&[]));
}

#[test]
fn masking_replaces_every_occurrence() {
    let mut secrets = SecretSet::default();
    secrets.add_value("A", "abc");
    secrets.add_value("B", "xyz");
    assert_eq!(secrets.mask("abc-xyz-abcabc"), "[REDACTED]-[REDACTED]-[REDACTED][REDACTED]");
    assert_eq!(secrets.mask("nothing here"), "nothing here");
}

#[test]
fn env_lookups_build_the_set() {
    let names = vec!["HAS".to_string(), "EMPTY".to_string(), "NONE".to_string()];
    let values = vec![Some("v".to_string()), Some(String::new()), None];
    let secrets = SecretSet::from_env_values(&names, &values);
    assert_eq!(secrets.names(), vec!["HAS"]);
    assert_eq!(secrets.missing_names(), vec!["EMPTY", "NONE"]);
}

#[test]
fn env_map_insert_and_extend() {
    let mut a = EnvMap::new();
    a.insert("Z", "1");
    a.insert("A", "2");
    a.insert("Z", "3");
    assert_eq!(a.len(), 2);
    assert_eq!(a.keys(), vec!["A", "Z"]);
    assert_eq!(a.values(), vec!["2", "3"]);
    let mut b = EnvMap::new();
    b.insert("A", "9");
    b.insert("M", "5");
    a.extend(&b);
    assert_eq!(
        a.pairs(),
        vec![
            ("A".to_string(), "9".to_string()),
            ("M".to_string(), "5".to_string()),
            ("Z".to_string(), "3".to_string()),
        ]
    );
}
