use linger::cli::{
    env_with_secret, init_plan, join_title, normalize_package, package_from_lowercase,
    random_secret, title, title_words,
};

#[test]
fn normalize_package_examples() {
    assert_eq!(normalize_package("My App!"), "my-app");
    assert_eq!(normalize_package("--Hello__World--"), "hello--world");
    assert_eq!(normalize_package("linger"), "linger");
    assert_eq!(normalize_package("ÉCOLE"), "-cole".trim_start_matches('-'));
    assert_eq!(normalize_package("***"), "");
}

#[test]
fn title_examples() {
    assert_eq!(title("my-app"), "My App");
    assert_eq!(title("my_cool-app"), "My Cool App");
    assert_eq!(title("--a--b--"), "A B");
    assert_eq!(title("ßeta"), "SSeta");
    assert_eq!(title(""), "");
}

#[test]
fn init_plan_for_a_name() {
    let plan = init_plan("My App");
    assert_eq!(plan.package, "my-app");
    assert_eq!(plan.app_name, "My App");
    assert_eq!(plan.marker, "{\"name\":\"my-app\"}\n");
    let r: Vec<(String, String, String, bool)> = plan
        .replacements
        .iter()
        .map(|r| (r.path.clone(), r.from.clone(), r.to.clone(), r.required))
        .collect();
    assert_eq!(
        r,
        vec![
            (
                "Cargo.toml".to_string(),
                "name = \"linger\"".to_string(),
                "name = \"my-app\"".to_string(),
                true
            ),
            (
                "README.md".to_string(),
                "Linger".to_string(),
                "My App".to_string(),
                false
            ),
            (
                "config/app.toml".to_string(),
                "name = \"Linger\"".to_string(),
                "name = \"My App\"".to_string(),
                true
            ),
            (
                "config/session.toml".to_string(),
                "cookie_name = \"linger_session\"".to_string(),
                "cookie_name = \"my_app_session\"".to_string(),
                true
            ),
            (
                "config/database.toml".to_string(),
                "sqlite://tmp/linger.sqlite3".to_string(),
                "sqlite://tmp/my-app.sqlite3".to_string(),
                true
            ),
        ]
    );
}

#[test]
fn secrets_are_random_hex() {
    let a = random_secret();
    let b = random_secret();
    assert_eq!(a.len(), 64);
    assert!(a.chars().all(|c| c.is_ascii_digit() || ('a'..='f').contains(&c)));
    assert_ne!(a, b);
}

#[test]
fn env_secret_is_replaced() {
    assert_eq!(
        env_with_secret("A=1\nSESSION_SECRET=change-me\n", "abc"),
        "A=1\nSESSION_SECRET=abc\n"
    );
    assert_eq!(env_with_secret("A=1\n", "abc"), "A=1\n");
}

#[test]
fn title_parts() {
    let ws = title_words("-my__cool-app");
    assert_eq!(
        ws,
        vec![vec!['m', 'y'], vec!['c', 'o', 'o', 'l'], vec!['a', 'p', 'p']]
    );
    let firsts = vec!["M".to_string(), "K".to_string(), "Ä".to_string()];
    assert_eq!(join_title(&ws, &firsts), "My Kool Äpp");
    assert_eq!(join_title(&vec![], &vec![]), "");
}

#[test]
fn package_from_lowercase_keeps_ascii_words() {
    assert_eq!(package_from_lowercase("my app!"), "my-app");
    assert_eq!(package_from_lowercase("émile"), "mile");
    assert_eq!(package_from_lowercase("a_b"), "a-b");
}

#[test]
fn normalized_package_names_are_fixed_points() {
    for s in ["My App!", "--Hello__World--", "ÉCOLE", "İstanbul Ünİ", "a", "", "Ab-9_z", "***"] {
        let r = normalize_package(s);
        assert!(r.chars().all(|c| c.is_ascii_lowercase() || c.is_ascii_digit() || c == '-'));
        assert!(!r.starts_with('-') && !r.ends_with('-'));
        assert_eq!(normalize_package(&r), r);
    }
}
