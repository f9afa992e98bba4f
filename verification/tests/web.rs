use linger::auth::{hash_password, hash_token, logout_cookie, password_outcome, verify_password};
use linger::csrf::{
    check_request, cookie_value, csrf_allowed, last_named_value, parse_cookie_headers, page_token, response_cookie, skip, token_cookie, login_cookies,
    unsafe_method, CsrfRejection,
};
use linger::db::sqlite_file_path;
use linger::email::{
    address_outcome, check_addresses, delivery, html_template, outbox_file_name, outbox_message, reset_mail, text_template,
    verify_mail, Delivery,
};
use linger::error::AppError;
use linger::server::listen_address;

fn is_uuid(s: &str) -> bool {
    let b: Vec<char> = s.chars().collect();
    b.len() == 36
        && b.iter().enumerate().all(|(i, c)| {
            if [8, 13, 18, 23].contains(&i) {
                *c == '-'
            } else {
                c.is_ascii_digit() || ('a'..='f').contains(c)
            }
        })
        && b[14] == '4'
        && "89ab".contains(b[19])
}

#[test]
fn csrf_rejects_missing_token() {
    assert!(matches!(
        check_request("POST", &vec![], None),
        Err(CsrfRejection::Forbidden)
    ));
}

#[test]
fn csrf_checks_the_echo() {
    let cookies = vec!["theme=dark; csrf_token=abc".to_string()];
    assert_eq!(check_request("POST", &cookies, Some("abc".into())).ok(), Some("abc".to_string()));
    assert!(check_request("DELETE", &cookies, Some("abd".into())).is_err());
    assert!(check_request("PUT", &cookies, None).is_err());
    assert_eq!(check_request("GET", &cookies, None).ok(), Some("abc".to_string()));
    let fresh = check_request("GET", &vec![], None).ok().unwrap();
    assert!(is_uuid(&fresh));
    assert!(unsafe_method("PATCH"));
    assert!(!unsafe_method("post"));
    assert!(!csrf_allowed("POST", &None, &None));
    assert!(csrf_allowed("OPTIONS", &None, &None));
}

#[test]
fn cookie_jar_lookup() {
    assert_eq!(cookie_value(&vec!["a=1; b=2".into()], "b"), Some("2".into()));
    assert_eq!(
        cookie_value(&vec!["b=1".into(), "c=3; b=%20x".into()], "b"),
        Some(" x".into())
    );
    assert_eq!(cookie_value(&vec!["a=1; novalue; =2".into()], "b"), None);
    assert_eq!(cookie_value(&vec![" b = 7 ".into()], "b"), Some("7".into()));
    assert_eq!(page_token(&vec!["csrf_token=t".into()]), "t");
    assert!(is_uuid(&page_token(&vec![])));
}

#[test]
fn csrf_cookie_text() {
    assert_eq!(token_cookie("t1"), "csrf_token=t1; HttpOnly; SameSite=Lax; Path=/");
    assert_eq!(
        response_cookie(false, "t1"),
        Some("csrf_token=t1; HttpOnly; SameSite=Lax; Path=/".to_string())
    );
    assert_eq!(response_cookie(true, "t1"), None);
    assert_eq!(skip(5), 5);
}

#[test]
fn token_hashes_are_sha256_hex() {
    assert_eq!(
        hash_token("abc"),
        "ba7816bf8f01cfea414140de5dae2223b00361a396177a9cb410ff61f20015ad"
    );
    assert_eq!(hash_token("abc"), hash_token("abc"));
    assert_ne!(hash_token("abc"), hash_token("abd"));
}

#[test]
fn passwords_verify_against_their_hash() {
    let h = hash_password("s3cret").ok().unwrap();
    assert!(h.starts_with("$argon2id$"));
    assert!(verify_password("s3cret", &h).is_ok());
    assert!(matches!(verify_password("wrong", &h), Err(AppError::Unauthorized)));
    assert!(matches!(verify_password("x", "not a hash"), Err(AppError::BadRequest(_))));
    assert!(matches!(password_outcome(None, true), Ok(())));
    assert!(matches!(password_outcome(Some("m".into()), true), Err(AppError::BadRequest(m)) if m == "m"));
}

#[test]
fn password_hashes_have_the_default_argon2_shape() {
    let head = "$argon2id$v=19$m=19456,t=2,p=1$";
    let is_b64 = |c: char| c.is_ascii_alphanumeric() || c == '+' || c == '/';
    let h = hash_password("").ok().unwrap();
    assert!(h.starts_with(head));
    assert_eq!(h.len(), head.len() + 66);
    let rest: Vec<char> = h[head.len()..].chars().collect();
    assert_eq!(rest[22], '$');
    for (i, c) in rest.iter().enumerate() {
        if i != 22 {
            assert!(is_b64(*c));
        }
    }
    let again = hash_password("").ok().unwrap();
    assert_ne!(h, again);
    assert!(verify_password("", &again).is_ok());
}

#[test]
fn logout_clears_the_session_cookie() {
    assert_eq!(logout_cookie("app_session"), "app_session=; Path=/; Max-Age=0");
}

#[test]
fn mail_links_and_outbox() {
    let m = verify_mail("http://h", "tok");
    assert_eq!(m.subject, "Verify your email");
    assert_eq!(m.stem, "emails/verify_email");
    assert_eq!(m.url, "http://h/auth/email/verify/tok");
    let m = reset_mail("http://h", "tok");
    assert_eq!(m.subject, "Reset your password");
    assert_eq!(m.url, "http://h/auth/password/reset/tok");
    assert_eq!(html_template("emails/x"), "emails/x.html");
    assert_eq!(text_template("emails/x"), "emails/x.txt");
    assert_eq!(
        outbox_message("a@b", "Hi", "text", "<p>html</p>"),
        "To: a@b\nSubject: Hi\n\ntext\n\n--- html ---\n<p>html</p>"
    );
    let f = outbox_file_name();
    assert!(f.ends_with(".eml") && is_uuid(&f[..36]));
}

#[test]
fn delivery_choice() {
    let mut cfg = linger::config::Config::default().email;
    assert!(matches!(delivery(&cfg), Delivery::Outbox));
    cfg.enabled = true;
    assert!(matches!(delivery(&cfg), Delivery::Unsent));
    cfg.smtp_host = Some("mx".into());
    assert!(matches!(delivery(&cfg), Delivery::Smtp { host, port: 587 } if host == "mx"));
}

#[test]
fn sqlite_paths_and_listen_addresses() {
    assert_eq!(sqlite_file_path("sqlite://tmp/a.db"), Some("tmp/a.db".into()));
    assert_eq!(sqlite_file_path("postgres://x"), None);
    assert_eq!(sqlite_file_path("sqlite:/"), None);
    assert_eq!(listen_address("127.0.0.1", 3000), "127.0.0.1:3000");
    assert_eq!(listen_address("h", 0), "h:0");
    assert_eq!(listen_address("h", 65535), "h:65535");
}

#[test]
fn the_last_cookie_of_a_name_wins() {
    let parsed = vec![
        Some(("a".to_string(), "1".to_string())),
        None,
        Some(("b".to_string(), "x".to_string())),
        Some(("a".to_string(), "2".to_string())),
    ];
    assert_eq!(last_named_value(&parsed, "a"), Some("2".to_string()));
    assert_eq!(last_named_value(&parsed, "b"), Some("x".to_string()));
    assert_eq!(last_named_value(&parsed, "c"), None);
    let p = parse_cookie_headers(&vec!["a=1;b".into(), "c=%41".into()]);
    assert_eq!(
        p,
        vec![
            Some(("a".to_string(), "1".to_string())),
            None,
            Some(("c".to_string(), "A".to_string()))
        ]
    );
}

#[test]
fn an_issued_token_echoed_back_passes() {
    let issued = check_request("GET", &vec![], None).ok().unwrap();
    let cookie = format!("csrf_token={issued}");
    assert_eq!(
        check_request("POST", &vec![cookie], Some(issued.clone())).ok(),
        Some(issued)
    );
}

#[test]
fn login_sets_session_and_csrf_cookies() {
    assert_eq!(
        login_cookies("app_session", "sid-1", "tok-2"),
        vec![
            "app_session=sid-1; HttpOnly; Path=/".to_string(),
            "csrf_token=tok-2; HttpOnly; Path=/".to_string(),
        ]
    );
}

#[test]
fn login_cookies_are_percent_encoded_as_the_jar_writes_them() {
    assert_eq!(
        login_cookies("my session", "a;b=c%(é)", "t,k"),
        vec![
            "my%20session=a%3Bb%3Dc%25%28%C3%A9%29; HttpOnly; Path=/".to_string(),
            "csrf_token=t%2Ck; HttpOnly; Path=/".to_string(),
        ]
    );
}

#[test]
fn a_session_cookie_named_like_the_csrf_cookie_is_replaced_by_it() {
    assert_eq!(
        login_cookies("csrf_token", "sid", "tok"),
        vec!["csrf_token=tok; HttpOnly; Path=/".to_string()]
    );
}

#[test]
fn mail_addresses_are_checked_sender_first() {
    assert!(check_addresses("App <app@example.com>", "user@example.com").is_ok());
    assert!(matches!(
        check_addresses("not an address", "also bad"),
        Err(AppError::BadRequest(m)) if m.starts_with("bad from: ")
    ));
    assert!(matches!(
        check_addresses("app@example.com", "nobody"),
        Err(AppError::BadRequest(m)) if m.starts_with("bad to: ")
    ));
    assert!(matches!(
        address_outcome(Some("x".into()), Some("y".into())),
        Err(AppError::BadRequest(m)) if m == "bad from: x"
    ));
    assert!(matches!(
        address_outcome(None, Some("y".into())),
        Err(AppError::BadRequest(m)) if m == "bad to: y"
    ));
    assert!(address_outcome(None, None).is_ok());
}

#[test]
fn a_hashed_password_verifies_and_another_does_not() {
    let h = hash_password("correct horse").ok().unwrap();
    assert!(verify_password("correct horse", &h).is_ok());
    assert!(matches!(verify_password("correct horsf", &h), Err(AppError::Unauthorized)));
}
