use linger::config::{Config, ConfigFiles, EnvVars};
use linger::generator::{normalize_domain, plan_domain, DomainArgs};

fn no_files() -> ConfigFiles {
    ConfigFiles {
        app: None,
        server: None,
        database: None,
        templates: None,
        static_files: None,
        logging: None,
        session: None,
        auth: None,
        email: None,
    }
}

fn no_env() -> EnvVars {
    EnvVars {
        app_name: None,
        app_base_url: None,
        host: None,
        port: None,
        database_url: None,
        session_cookie_name: None,
        session_secret: None,
        session_secure: None,
        email_enabled: None,
        email_from: None,
        smtp_host: None,
        smtp_username: None,
        smtp_password: None,
        rust_log: None,
    }
}

#[test]
fn config_loads() {
    let cfg = Config::load(no_files(), &no_env());
    assert_eq!(cfg.app.name, "Linger");
}

#[test]
fn generator_dry_run() {
    let args = DomainArgs {
        name: "Post".into(),
        fields: vec![],
        crud: false,
        no_web: false,
        dry_run: true,
        yes: true,
    };
    let plan = plan_domain(&args).ok().unwrap();
    assert!(plan.files.iter().any(|p| p.ends_with("src/posts/mod.rs")));
}

#[test]
fn normalize_domain_examples() {
    assert_eq!(normalize_domain("BlogPost"), "blog_posts");
}
