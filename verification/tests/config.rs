use linger::config::{
    AppConfig, Config, ConfigFiles, EnvVars, ServeOverrides, ServerConfig,
};

fn no_files() -> ConfigFiles {
    ConfigFiles {
        app: None,
        server: None,
        database: None,
        templates: None,
        static_files: None,
        logging: None,
        session: None,
        auth: None,
        email: None,
    }
}

fn no_env() -> EnvVars {
    EnvVars {
        app_name: None,
        app_base_url: None,
        host: None,
        port: None,
        database_url: None,
        session_cookie_name: None,
        session_secret: None,
        session_secure: None,
        email_enabled: None,
        email_from: None,
        smtp_host: None,
        smtp_username: None,
        smtp_password: None,
        rust_log: None,
    }
}

#[test]
fn defaults() {
    let c = Config::default();
    assert_eq!(c.app.name, "Linger");
    assert_eq!(c.app.base_url, "http://127.0.0.1:3000");
    assert_eq!(c.server.port, 3000);
    assert_eq!(c.server.body_limit_bytes, 2 * 1024 * 1024);
    assert_eq!(c.database.url, "sqlite://tmp/linger.sqlite3");
    assert_eq!(c.templates.path, "templates");
    assert_eq!(c.static_files.mount, "/static");
    assert_eq!(c.session.cookie_name, "linger_session");
    assert_eq!(c.auth.password_reset_ttl_minutes, 15);
    assert_eq!(c.email.smtp_port, 587);
    assert_eq!(c.email.outbox_dir, "tmp/emails");
}

#[test]
fn layers_take_precedence_in_order() {
    let mut files = no_files();
    files.app = Some(AppConfig {
        name: "FromFile".into(),
        base_url: "http://file".into(),
    });
    files.server = Some(ServerConfig {
        host: "0.0.0.0".into(),
        port: 4000,
        request_timeout_secs: 5,
        body_limit_bytes: 10,
    });
    let mut env = no_env();
    env.app_name = Some("FromEnv".into());
    env.port = Some("5000".into());
    let c = Config::load(files.clone(), &env);
    assert_eq!(c.app.name, "FromEnv");
    assert_eq!(c.app.base_url, "http://file");
    assert_eq!(c.server.host, "0.0.0.0");
    assert_eq!(c.server.port, 5000);
    assert_eq!(c.server.request_timeout_secs, 5);
    let o = ServeOverrides {
        host: Some("::1".into()),
        port: Some(6000),
    };
    let c = Config::load_with_overrides(files, &env, Some(o));
    assert_eq!(c.server.host, "::1");
    assert_eq!(c.server.port, 6000);
}

#[test]
fn env_flags_and_bad_ports() {
    let mut env = no_env();
    env.port = Some("not-a-port".into());
    env.session_secure = Some("yes".into());
    env.email_enabled = Some("TRUE".into());
    env.smtp_host = Some("smtp.example.test".into());
    let c = Config::load(no_files(), &env);
    assert_eq!(c.server.port, 3000);
    assert!(c.session.secure);
    assert!(!c.email.enabled);
    assert_eq!(c.email.smtp_host.as_deref(), Some("smtp.example.test"));
}

#[test]
fn empty_env_changes_nothing() {
    let mut c = Config::default();
    c.apply_env(&no_env());
    assert_eq!(c.app.name, "Linger");
    assert_eq!(c.server.host, "127.0.0.1");
    assert!(!c.session.secure);
}
