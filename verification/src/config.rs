//! Configuration: built-in defaults, then the TOML files, then the
//! environment, then the command-line overrides.
use vstd::prelude::*;
use crate::text::{chars_of, equals_str, parse_u16, u16_from_text};

verus! {

#[derive(Debug, Clone)]
pub struct Config {
    pub app: AppConfig,
    pub server: ServerConfig,
    pub database: DatabaseConfig,
    pub templates: TemplatesConfig,
    pub static_files: StaticConfig,
    pub logging: LoggingConfig,
    pub session: SessionConfig,
    pub auth: AuthConfig,
    pub email: EmailConfig,
}

#[derive(Debug, Clone)]
pub struct AppConfig {
    pub name: String,
    pub base_url: String,
}

#[derive(Debug, Clone)]
pub struct ServerConfig {
    pub host: String,
    pub port: u16,
    pub request_timeout_secs: u64,
    pub body_limit_bytes: usize,
}

#[derive(Debug, Clone)]
pub struct DatabaseConfig {
    pub url: String,
    pub auto_migrate: bool,
}

/// Where the templates are; the path is kept as text.
#[derive(Debug, Clone)]
pub struct TemplatesConfig {
    pub path: String,
}

/// Where the static files are and where they are served; the path is kept
/// as text.
#[derive(Debug, Clone)]
pub struct StaticConfig {
    pub path: String,
    pub mount: String,
}

#[derive(Debug, Clone)]
pub struct LoggingConfig {
    pub rust_log: String,
}

#[derive(Debug, Clone)]
pub struct SessionConfig {
    pub cookie_name: String,
    pub secret: String,
    pub secure: bool,
}

#[derive(Debug, Clone)]
pub struct AuthConfig {
    pub require_email_verification: bool,
    pub email_verification_ttl_minutes: i64,
    pub password_reset_ttl_minutes: i64,
}

/// Email delivery; the outbox directory is kept as text.
#[derive(Debug, Clone)]
pub struct EmailConfig {
    pub enabled: bool,
    pub smtp_host: Option<String>,
    pub smtp_port: u16,
    pub smtp_username: Option<String>,
    pub smtp_password: Option<String>,
    pub from: String,
    pub outbox_dir: String,
}

/// Host and port given on the command line of `serve`.
#[derive(Debug, Clone)]
pub struct ServeOverrides {
    pub host: Option<String>,
    pub port: Option<u16>,
}

/// The sections read from the TOML files under `config/`; `None` for a file
/// that does not exist.
#[derive(Debug, Clone)]
pub struct ConfigFiles {
    pub app: Option<AppConfig>,
    pub server: Option<ServerConfig>,
    pub database: Option<DatabaseConfig>,
    pub templates: Option<TemplatesConfig>,
    pub static_files: Option<StaticConfig>,
    pub logging: Option<LoggingConfig>,
    pub session: Option<SessionConfig>,
    pub auth: Option<AuthConfig>,
    pub email: Option<EmailConfig>,
}

/// The environment variables that configuration reads; `None` for one that
/// is unset (or not valid Unicode).
#[derive(Debug, Clone)]
pub struct EnvVars {
    pub app_name: Option<String>,
    pub app_base_url: Option<String>,
    pub host: Option<String>,
    pub port: Option<String>,
    pub database_url: Option<String>,
    pub session_cookie_name: Option<String>,
    pub session_secret: Option<String>,
    pub session_secure: Option<String>,
    pub email_enabled: Option<String>,
    pub email_from: Option<String>,
    pub smtp_host: Option<String>,
    pub smtp_username: Option<String>,
    pub smtp_password: Option<String>,
    pub rust_log: Option<String>,
}

/// The built-in configuration.
pub open spec fn is_default_config(c: Config) -> bool {
    &&& c.app.name@ == "Linger"@
    &&& c.app.base_url@ == "http://127.0.0.1:3000"@
    &&& c.server.host@ == "127.0.0.1"@
    &&& c.server.port == 3000
    &&& c.server.request_timeout_secs == 30
    &&& c.server.body_limit_bytes == 2 * 1024 * 1024
    &&& c.database.url@ == "sqlite://tmp/linger.sqlite3"@
    &&& c.database.auto_migrate
    &&& c.templates.path@ == "templates"@
    &&& c.static_files.path@ == "static"@
    &&& c.static_files.mount@ == "/static"@
    &&& c.logging.rust_log@ == "linger=debug,tower_http=debug"@
    &&& c.session.cookie_name@ == "linger_session"@
    &&& c.session.secret@ == "change-me-in-env"@
    &&& !c.session.secure
    &&& c.auth.require_email_verification
    &&& c.auth.email_verification_ttl_minutes == 60
    &&& c.auth.password_reset_ttl_minutes == 15
    &&& !c.email.enabled
    &&& c.email.smtp_host is None
    &&& c.email.smtp_port == 587
    &&& c.email.smtp_username is None
    &&& c.email.smtp_password is None
    &&& c.email.from@ == "Linger <noreply@example.test>"@
    &&& c.email.outbox_dir@ == "tmp/emails"@
}

impl Default for Config {
    fn default() -> (r: Self)
        ensures
            is_default_config(r),
    {
        Config {
            app: AppConfig {
                name: "Linger".to_owned(),
                base_url: "http://127.0.0.1:3000".to_owned(),
            },
            server: ServerConfig {
                host: "127.0.0.1".to_owned(),
                port: 3000,
                request_timeout_secs: 30,
                body_limit_bytes: 2 * 1024 * 1024,
            },
            database: DatabaseConfig {
                url: "sqlite://tmp/linger.sqlite3".to_owned(),
                auto_migrate: true,
            },
            templates: TemplatesConfig { path: "templates".to_owned() },
            static_files: StaticConfig {
                path: "static".to_owned(),
                mount: "/static".to_owned(),
            },
            logging: LoggingConfig { rust_log: "linger=debug,tower_http=debug".to_owned() },
            session: SessionConfig {
                cookie_name: "linger_session".to_owned(),
                secret: "change-me-in-env".to_owned(),
                secure: false,
            },
            auth: AuthConfig {
                require_email_verification: true,
                email_verification_ttl_minutes: 60,
                password_reset_ttl_minutes: 15,
            },
            email: EmailConfig {
                enabled: false,
                smtp_host: None,
                smtp_port: 587,
                smtp_username: None,
                smtp_password: None,
                from: "Linger <noreply@example.test>".to_owned(),
                outbox_dir: "tmp/emails".to_owned(),
            },
        }
    }
}

/// The section of a file where the file exists, else the current one.
pub open spec fn section<T>(file: Option<T>, current: T) -> T {
    match file {
        Some(s) => s,
        None => current,
    }
}

/// `c` with each section replaced by that of its file, where it exists.
pub open spec fn with_files(c: Config, f: ConfigFiles) -> Config {
    Config {
        app: section(f.app, c.app),
        server: section(f.server, c.server),
        database: section(f.database, c.database),
        templates: section(f.templates, c.templates),
        static_files: section(f.static_files, c.static_files),
        logging: section(f.logging, c.logging),
        session: section(f.session, c.session),
        auth: section(f.auth, c.auth),
        email: section(f.email, c.email),
    }
}

/// The value of a variable where it is set, else the current one.
pub open spec fn var_or(v: Option<String>, current: String) -> String {
    match v {
        Some(x) => x,
        None => current,
    }
}

/// A flag variable is on when it reads `1`, `true` or `yes`.
pub open spec fn is_truthy(v: Seq<char>) -> bool {
    v == "1"@ || v == "true"@ || v == "yes"@
}

/// The value of a flag variable where it is set, else the current one.
pub open spec fn flag_or(v: Option<String>, current: bool) -> bool {
    match v {
        Some(x) => is_truthy(x@),
        None => current,
    }
}

/// The port of the `PORT` variable where it is set and a valid port, else
/// the current one.
pub open spec fn port_or(v: Option<String>, current: u16) -> u16 {
    match v {
        Some(x) => match u16_from_text(x@) {
            Some(p) => p,
            None => current,
        },
        None => current,
    }
}

/// A variable that sets an optional value where it is set.
pub open spec fn some_or(v: Option<String>, current: Option<String>) -> Option<String> {
    match v {
        Some(x) => Some(x),
        None => current,
    }
}

/// `c` with the environment variables applied.
pub open spec fn with_env(c: Config, env: EnvVars) -> Config {
    Config {
        app: AppConfig {
            name: var_or(env.app_name, c.app.name),
            base_url: var_or(env.app_base_url, c.app.base_url),
        },
        server: ServerConfig {
            host: var_or(env.host, c.server.host),
            port: port_or(env.port, c.server.port),
            request_timeout_secs: c.server.request_timeout_secs,
            body_limit_bytes: c.server.body_limit_bytes,
        },
        database: DatabaseConfig {
            url: var_or(env.database_url, c.database.url),
            auto_migrate: c.database.auto_migrate,
        },
        templates: c.templates,
        static_files: c.static_files,
        logging: LoggingConfig { rust_log: var_or(env.rust_log, c.logging.rust_log) },
        session: SessionConfig {
            cookie_name: var_or(env.session_cookie_name, c.session.cookie_name),
            secret: var_or(env.session_secret, c.session.secret),
            secure: flag_or(env.session_secure, c.session.secure),
        },
        auth: c.auth,
        email: EmailConfig {
            enabled: flag_or(env.email_enabled, c.email.enabled),
            smtp_host: some_or(env.smtp_host, c.email.smtp_host),
            smtp_port: c.email.smtp_port,
            smtp_username: some_or(env.smtp_username, c.email.smtp_username),
            smtp_password: some_or(env.smtp_password, c.email.smtp_password),
            from: var_or(env.email_from, c.email.from),
            outbox_dir: c.email.outbox_dir,
        },
    }
}

/// `c` with the command-line host and port applied.
pub open spec fn with_overrides(c: Config, o: Option<ServeOverrides>) -> Config {
    match o {
        None => c,
        Some(o) => Config {
            server: ServerConfig {
                host: match o.host {
                    Some(h) => h,
                    None => c.server.host,
                },
                port: match o.port {
                    Some(p) => p,
                    None => c.server.port,
                },
                ..c.server
            },
            ..c
        },
    }
}

/// The `true` that a flag variable holds.
pub fn truthy(v: &str) -> (b: bool)
    ensures
        b == is_truthy(v@),
{
    let c = chars_of(v);
    equals_str(&c, "1") || equals_str(&c, "true") || equals_str(&c, "yes")
}

fn apply_env_app(app: &mut AppConfig, env: &EnvVars)
    ensures
        final(app).name == var_or(env.app_name, old(app).name),
        final(app).base_url == var_or(env.app_base_url, old(app).base_url),
{
    if let Some(v) = &env.app_name {
        app.name = v.clone();
    }
    if let Some(v) = &env.app_base_url {
        app.base_url = v.clone();
    }
}

fn apply_env_server(server: &mut ServerConfig, env: &EnvVars)
    ensures
        final(server).host == var_or(env.host, old(server).host),
        final(server).port == port_or(env.port, old(server).port),
        final(server).request_timeout_secs == old(server).request_timeout_secs,
        final(server).body_limit_bytes == old(server).body_limit_bytes,
{
    if let Some(v) = &env.host {
        server.host = v.clone();
    }
    if let Some(v) = &env.port {
        if let Some(p) = parse_u16(v.as_str()) {
            server.port = p;
        }
    }
}

fn apply_env_session(session: &mut SessionConfig, env: &EnvVars)
    ensures
        final(session).cookie_name == var_or(env.session_cookie_name, old(session).cookie_name),
        final(session).secret == var_or(env.session_secret, old(session).secret),
        final(session).secure == flag_or(env.session_secure, old(session).secure),
{
    if let Some(v) = &env.session_cookie_name {
        session.cookie_name = v.clone();
    }
    if let Some(v) = &env.session_secret {
        session.secret = v.clone();
    }
    if let Some(v) = &env.session_secure {
        session.secure = truthy(v.as_str());
    }
}

fn apply_env_email(email: &mut EmailConfig, env: &EnvVars)
    ensures
        final(email).enabled == flag_or(env.email_enabled, old(email).enabled),
        final(email).smtp_host == some_or(env.smtp_host, old(email).smtp_host),
        final(email).smtp_port == old(email).smtp_port,
        final(email).smtp_username == some_or(env.smtp_username, old(email).smtp_username),
        final(email).smtp_password == some_or(env.smtp_password, old(email).smtp_password),
        final(email).from == var_or(env.email_from, old(email).from),
        final(email).outbox_dir == old(email).outbox_dir,
{
    if let Some(v) = &env.email_enabled {
        email.enabled = truthy(v.as_str());
    }
    if let Some(v) = &env.email_from {
        email.from = v.clone();
    }
    if let Some(v) = &env.smtp_host {
        email.smtp_host = Some(v.clone());
    }
    if let Some(v) = &env.smtp_username {
        email.smtp_username = Some(v.clone());
    }
    if let Some(v) = &env.smtp_password {
        email.smtp_password = Some(v.clone());
    }
}

impl Config {
    /// Replaces each section with that of its file, where the file exists.
    pub fn apply_files(&mut self, files: ConfigFiles)
        ensures
            *final(self) == with_files(*old(self), files),
    {
        if let Some(s) = files.app {
            self.app = s;
        }
        if let Some(s) = files.server {
            self.server = s;
        }
        if let Some(s) = files.database {
            self.database = s;
        }
        if let Some(s) = files.templates {
            self.templates = s;
        }
        if let Some(s) = files.static_files {
            self.static_files = s;
        }
        if let Some(s) = files.logging {
            self.logging = s;
        }
        if let Some(s) = files.session {
            self.session = s;
        }
        if let Some(s) = files.auth {
            self.auth = s;
        }
        if let Some(s) = files.email {
            self.email = s;
        }
    }

    /// Applies the environment variables: text values replace the current
    /// ones, `PORT` where it is a valid port, flags where set, and the SMTP
    /// settings where set.
    pub fn apply_env(&mut self, env: &EnvVars)
        ensures
            *final(self) == with_env(*old(self), *env),
    {
        apply_env_app(&mut self.app, env);
        apply_env_server(&mut self.server, env);
        if let Some(v) = &env.database_url {
            self.database.url = v.clone();
        }
        apply_env_session(&mut self.session, env);
        apply_env_email(&mut self.email, env);
        if let Some(v) = &env.rust_log {
            self.logging.rust_log = v.clone();
        }
    }

    /// Applies the host and port given on the command line.
    pub fn apply_overrides(&mut self, overrides: Option<ServeOverrides>)
        ensures
            *final(self) == with_overrides(*old(self), overrides),
    {
        if let Some(o) = overrides {
            if let Some(host) = o.host {
                self.server.host = host;
            }
            if let Some(port) = o.port {
                self.server.port = port;
            }
        }
    }

    /// The configuration from the files and the environment, with the
    /// command-line host and port on top.
    pub fn load_with_overrides(files: ConfigFiles, env: &EnvVars, overrides: Option<
        ServeOverrides,
    >) -> (r: Config)
        ensures
            exists|d: Config|
                is_default_config(d) && r == #[trigger] with_overrides(
                    with_env(with_files(d, files), *env),
                    overrides,
                ),
    {
        let mut cfg = Config::default();
        let ghost d = cfg;
        cfg.apply_files(files);
        cfg.apply_env(env);
        cfg.apply_overrides(overrides);
        proof {
            assert(is_default_config(d) && cfg == with_overrides(
                with_env(with_files(d, files), *env),
                overrides,
            ));
        }
        cfg
    }

    /// The configuration from the files and the environment.
    pub fn load(files: ConfigFiles, env: &EnvVars) -> (r: Config)
        ensures
            exists|d: Config|
                is_default_config(d) && r == #[trigger] with_env(with_files(d, files), *env),
    {
        Self::load_with_overrides(files, env, None)
    }
}

/// The layers of configuration: a command-line host or port wins over the
/// environment, a set variable wins over the files, a file's section wins
/// over the built-in defaults.
pub proof fn lemma_layer_precedence(
    d: Config,
    files: ConfigFiles,
    env: EnvVars,
    o: Option<ServeOverrides>,
)
    requires
        is_default_config(d),
    ensures
        ({
            let c = with_overrides(with_env(with_files(d, files), env), o);
            &&& c.server.host@ == if o is Some && o->0.host is Some {
                o->0.host->0@
            } else if env.host is Some {
                env.host->0@
            } else if files.server is Some {
                files.server->0.host@
            } else {
                "127.0.0.1"@
            }
            &&& c.server.port == if o is Some && o->0.port is Some {
                o->0.port->0
            } else if env.port is Some && u16_from_text(env.port->0@) is Some {
                u16_from_text(env.port->0@)->0
            } else if files.server is Some {
                files.server->0.port
            } else {
                3000
            }
            &&& c.app.name@ == if env.app_name is Some {
                env.app_name->0@
            } else if files.app is Some {
                files.app->0.name@
            } else {
                "Linger"@
            }
            &&& c.database.url@ == if env.database_url is Some {
                env.database_url->0@
            } else if files.database is Some {
                files.database->0.url@
            } else {
                "sqlite://tmp/linger.sqlite3"@
            }
        }),
{
}

/// Without any variables set, the environment changes nothing.
pub proof fn lemma_empty_env(c: Config, env: EnvVars)
    requires
        env.app_name is None,
        env.app_base_url is None,
        env.host is None,
        env.port is None,
        env.database_url is None,
        env.session_cookie_name is None,
        env.session_secret is None,
        env.session_secure is None,
        env.email_enabled is None,
        env.email_from is None,
        env.smtp_host is None,
        env.smtp_username is None,
        env.smtp_password is None,
        env.rust_log is None,
    ensures
        with_env(c, env) == c,
{
}

/// Every variable that is set wins over what the files and defaults say:
/// a set text variable becomes the value, a set flag is on exactly when it
/// reads `1`, `true` or `yes`, a set `PORT` becomes the port where it is a
/// valid one, and a set SMTP variable becomes the (present) value. A
/// variable that is not set leaves its value as it was.
pub proof fn lemma_set_variables_win(c: Config, env: EnvVars)
    ensures
        ({
            let r = with_env(c, env);
            &&& r.app.name == (if env.app_name is Some { env.app_name->0 } else { c.app.name })
            &&& r.app.base_url == (if env.app_base_url is Some { env.app_base_url->0 } else { c.app.base_url })
            &&& r.server.host == (if env.host is Some { env.host->0 } else { c.server.host })
            &&& r.server.port == (if env.port is Some && u16_from_text(env.port->0@) is Some {
                u16_from_text(env.port->0@)->0
            } else {
                c.server.port
            })
            &&& r.database.url == (if env.database_url is Some { env.database_url->0 } else { c.database.url })
            &&& r.session.cookie_name == (if env.session_cookie_name is Some {
                env.session_cookie_name->0
            } else {
                c.session.cookie_name
            })
            &&& r.session.secret == (if env.session_secret is Some {
                env.session_secret->0
            } else {
                c.session.secret
            })
            &&& r.session.secure == (if env.session_secure is Some {
                is_truthy(env.session_secure->0@)
            } else {
                c.session.secure
            })
            &&& r.email.enabled == (if env.email_enabled is Some {
                is_truthy(env.email_enabled->0@)
            } else {
                c.email.enabled
            })
            &&& r.email.from == (if env.email_from is Some { env.email_from->0 } else { c.email.from })
            &&& r.email.smtp_host == (if env.smtp_host is Some { env.smtp_host } else { c.email.smtp_host })
            &&& r.email.smtp_username == (if env.smtp_username is Some {
                env.smtp_username
            } else {
                c.email.smtp_username
            })
            &&& r.email.smtp_password == (if env.smtp_password is Some {
                env.smtp_password
            } else {
                c.email.smtp_password
            })
            &&& r.logging.rust_log == (if env.rust_log is Some { env.rust_log->0 } else { c.logging.rust_log })
        }),
{
}

} // verus!
