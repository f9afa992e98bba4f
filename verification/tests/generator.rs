use linger::generator::{
    append_unique_contents, migration_file_at, migration_path, normalize_domain, parse_field,
    parse_sql_field, plan_domain, plan_domain_at, pluralize_snake, sanitize_ident, DomainArgs,
    FsAction, GenerateError,
};
use linger::scaffold::{
    form_partial, handlers_source, migration_source, model_source, module_declaration,
    module_source, page_source, repository_reminder, repository_source, route_reminder,
    routes_source, row_partial,
};

fn args(name: &str, fields: Vec<String>, crud: bool, no_web: bool, dry_run: bool) -> DomainArgs {
    DomainArgs {
        name: name.into(),
        fields,
        crud,
        no_web,
        dry_run,
        yes: true,
    }
}

fn chars(s: &str) -> Vec<char> {
    s.chars().collect()
}

#[test]
fn normalize_domain_snake_cases_and_pluralizes() {
    assert_eq!(normalize_domain("Post"), "posts");
    assert_eq!(normalize_domain("BlogPost"), "blog_posts");
    assert_eq!(normalize_domain("blog-post"), "blog_posts");
    assert_eq!(normalize_domain("  Blog  Post!! "), "blog_posts");
    assert_eq!(normalize_domain("category"), "categories");
    assert_eq!(normalize_domain("Box"), "boxes");
    assert_eq!(normalize_domain("church"), "churches");
    assert_eq!(normalize_domain("wish"), "wishes");
    assert_eq!(normalize_domain("quiz"), "quizes");
    assert_eq!(normalize_domain("news"), "news");
    assert_eq!(normalize_domain("HTMLPage"), "htmlpages");
    assert_eq!(normalize_domain("v2Item"), "v2_items");
    assert_eq!(normalize_domain("état"), "tats");
    assert_eq!(normalize_domain(""), "s");
    assert_eq!(normalize_domain("___"), "s");
}

#[test]
fn normalize_domain_is_idempotent_on_examples() {
    for name in ["BlogPost", "category", "a--b__c", "HTTPServer", "x9Y", ""] {
        let once = normalize_domain(name);
        assert_eq!(normalize_domain(&once), once);
    }
}

#[test]
fn pluralize_snake_by_ending() {
    assert_eq!(pluralize_snake("city"), "cities");
    assert_eq!(pluralize_snake("y"), "ies");
    assert_eq!(pluralize_snake("tax"), "taxes");
    assert_eq!(pluralize_snake("post"), "posts");
    assert_eq!(pluralize_snake("posts"), "posts");
}

#[test]
fn sanitize_ident_cases() {
    assert_eq!(sanitize_ident("Title"), "title");
    assert_eq!(sanitize_ident("first name"), "first_name");
    assert_eq!(sanitize_ident("9lives"), "field_9lives");
    assert_eq!(sanitize_ident("naïve-field"), "na_ve_field");
    assert_eq!(sanitize_ident(""), "");
}

#[test]
fn parse_field_cases() {
    assert_eq!(
        parse_field("title:string"),
        Some(("title".to_string(), "String".to_string()))
    );
    assert_eq!(
        parse_field("age:int?"),
        Some(("age".to_string(), "Option<i32>".to_string()))
    );
    assert_eq!(
        parse_field("score:float:default=1?"),
        Some(("score".to_string(), "Option<f64>".to_string()))
    );
    assert_eq!(
        parse_field("at:datetime"),
        Some(("at".to_string(), "DateTime<Utc>".to_string()))
    );
    assert_eq!(
        parse_field("n:bigint"),
        Some(("n".to_string(), "i64".to_string()))
    );
    assert_eq!(
        parse_field("ok:bool"),
        Some(("ok".to_string(), "bool".to_string()))
    );
    assert_eq!(
        parse_field("x:whatever"),
        Some(("x".to_string(), "String".to_string()))
    );
    assert_eq!(parse_field("nocolon"), None);
}

#[test]
fn parse_sql_field_cases() {
    assert_eq!(
        parse_sql_field("title:string"),
        Some(("title".to_string(), "TEXT NOT NULL".to_string()))
    );
    assert_eq!(
        parse_sql_field("age:int?"),
        Some(("age".to_string(), "INTEGER".to_string()))
    );
    assert_eq!(
        parse_sql_field("title:string:default=it's"),
        Some((
            "title".to_string(),
            "TEXT NOT NULL DEFAULT 'it''s'".to_string()
        ))
    );
    assert_eq!(
        parse_sql_field("n:int:default=5:default=7"),
        Some(("n".to_string(), "INTEGER NOT NULL DEFAULT 5".to_string()))
    );
    assert_eq!(
        parse_sql_field("r:float"),
        Some(("r".to_string(), "REAL NOT NULL".to_string()))
    );
    assert_eq!(parse_sql_field("plain"), None);
}

#[test]
fn sources_match_the_templates() {
    let name = "posts";
    assert_eq!(
        module_source(true),
        "pub mod handlers;\npub mod model;\npub mod repository;\npub mod routes;\n"
    );
    assert_eq!(
        module_source(false),
        "pub mod handlers;\npub mod repository;\npub mod routes;\n"
    );
    assert_eq!(
        routes_source(name, false, true),
        "use axum::Router;\npub fn routes() -> Router<crate::state::AppState> { Router::new() }\n"
    );
    assert_eq!(
        routes_source(name, false, false),
        format!("use axum::{{routing::get, Router}};\nuse super::handlers;\n\npub fn routes() -> Router<crate::state::AppState> {{\n    Router::new().route(\"/{name}\", get(handlers::index))\n}}\n")
    );
    assert!(routes_source(name, true, false).contains(".route(\"/posts/:id/delete\", post(handlers::delete))"));
    assert!(repository_source(name, true).ends_with("    }\n    // TODO: implement list/find/create/update/soft_delete queries.\n}\n\n// Domain: posts\n"));
    assert!(repository_source(name, false).contains("// TODO: implement domain queries."));
    assert!(handlers_source(name, true).contains("view.render(\"pages/posts/edit.html\", json!({\"id\": id}))"));
    assert_eq!(
        handlers_source(name, false),
        format!("use crate::{{error::AppResult, view::View}};\nuse axum::response::IntoResponse;\nuse serde_json::json;\n\npub async fn index(view: View) -> AppResult<impl IntoResponse> {{\n    view.render(\"pages/{name}/index.html\", json!({{}}))\n}}\n")
    );
    let action = "index";
    assert_eq!(
        page_source(name, action),
        format!("{{% extends \"layouts/app.html\" %}}\n{{% block title %}}{action} {name}{{% endblock %}}\n{{% block content %}}\n<section class=\"card\">\n  <h1>{action} {name}</h1>\n  <p class=\"muted\">Generated by Linger.</p>\n</section>\n{{% endblock %}}\n")
    );
    assert_eq!(
        row_partial(name),
        "<tr><td>{{ item.id }}</td><td>posts</td></tr>\n"
    );
    assert!(form_partial(name).contains("value=\"{{ csrf_token }}\""));
    assert_eq!(module_declaration(name), "pub mod posts;\n");
    assert!(route_reminder(name).contains(".merge(crate::posts::routes::routes())"));
    assert!(repository_reminder(name).contains("add posts repository factory"));
}

#[test]
fn model_and_migration_list_the_fields() {
    let fields = vec![
        "title:string".to_string(),
        "body:text?".to_string(),
        "junk".to_string(),
    ];
    let model = model_source("posts", &fields);
    assert!(model.contains("    pub id: i64,\n    pub title: String,\n    pub body: Option<String>,\n    pub created_at"));
    assert!(model.ends_with("\n// Domain model for posts. Rename Row to a domain-specific type when desired.\n"));
    let sql = migration_source("posts", &fields);
    assert_eq!(
        sql,
        "CREATE TABLE IF NOT EXISTS posts (\n    id INTEGER PRIMARY KEY AUTOINCREMENT,\n    title TEXT NOT NULL,\n    body TEXT,\n    created_at TEXT NOT NULL DEFAULT CURRENT_TIMESTAMP,\n    updated_at TEXT NOT NULL DEFAULT CURRENT_TIMESTAMP,\n    deleted_at TEXT\n);\n"
    );
}

#[test]
fn plan_lists_files_in_order() {
    let plan = plan_domain_at(&args("Post", vec![], true, false, true), "20240101000000", "x")
        .ok()
        .unwrap();
    assert_eq!(plan.name, "posts");
    assert_eq!(plan.dir, "src/posts");
    assert_eq!(
        plan.files,
        vec![
            "src/posts/mod.rs",
            "src/posts/routes.rs",
            "src/posts/handlers.rs",
            "src/posts/repository.rs",
            "src/posts/model.rs",
            "migrations/20240101000000_create_posts.sql",
            "templates/pages/posts/index.html",
            "templates/pages/posts/show.html",
            "templates/pages/posts/new.html",
            "templates/pages/posts/edit.html",
            "templates/pages/posts/_form.html",
            "templates/pages/posts/_row.html",
        ]
    );
    assert!(plan.actions.is_empty());
}

#[test]
fn plan_without_web_pages() {
    let plan = plan_domain_at(&args("Tag", vec![], false, true, false), "a", "b")
        .ok()
        .unwrap();
    assert_eq!(plan.files.len(), 4);
    assert_eq!(plan.actions.len(), 8);
    match &plan.actions[0] {
        FsAction::CreateDir { path } => assert_eq!(path, "src/tags"),
        _ => panic!("the module directory comes first"),
    }
    match &plan.actions[7] {
        FsAction::AppendUnique { path, text } => {
            assert_eq!(path, "src/repositories.rs");
            assert!(text.contains("add tags repository factory"));
        }
        _ => panic!("the repository note comes last"),
    }
}

#[test]
fn plan_writes_the_stamped_migration() {
    let plan = plan_domain_at(&args("Post", vec!["title:string".into()], true, false, false), "1", "2")
        .ok()
        .unwrap();
    assert!(plan.files.contains(&"migrations/1_create_posts.sql".to_string()));
    let written: Vec<&String> = plan
        .actions
        .iter()
        .filter_map(|a| match a {
            FsAction::Write { path, .. } => Some(path),
            _ => None,
        })
        .collect();
    assert!(written.contains(&&"migrations/2_create_posts.sql".to_string()));
    assert_eq!(written.len(), 12);
}

#[test]
fn crud_conflicts_with_no_web() {
    assert!(matches!(
        plan_domain(&args("Post", vec![], true, true, true)),
        Err(GenerateError::CrudConflictsWithNoWeb)
    ));
    match plan_domain(&args("Post", vec![], true, true, true)) {
        Err(e) => assert_eq!(e.message(), "--crud conflicts with --no-web"),
        Ok(_) => panic!("a plan for --crud with --no-web"),
    }
}

#[test]
fn migration_paths_are_stamped_with_digits() {
    assert_eq!(migration_file_at("posts", "20250102030405"), "migrations/20250102030405_create_posts.sql");
    let p = migration_path("posts");
    let stamp = &p["migrations/".len()..p.len() - "_create_posts.sql".len()];
    assert_eq!(stamp.len(), 14);
    assert!(stamp.chars().all(|c| c.is_ascii_digit()));
    let plan = plan_domain(&args("Post", vec![], true, false, true)).ok().unwrap();
    assert!(plan.files[5].starts_with("migrations/2"));
}

#[test]
fn append_unique_once() {
    assert_eq!(
        append_unique_contents("pub mod a;\n", "pub mod b;\n"),
        Some("pub mod a;\npub mod b;\n".to_string())
    );
    assert_eq!(append_unique_contents("pub mod a;\npub mod b;", "pub mod b;\n"), None);
    let once = append_unique_contents("x", "\n// note\n").unwrap();
    assert_eq!(append_unique_contents(&once, "\n// note\n"), None);
}

#[test]
fn reported_files_are_the_written_files() {
    for (crud, no_web) in [(false, false), (true, false), (false, true)] {
        let plan = plan_domain_at(&args("Post", vec![], crud, no_web, false), "7", "7")
            .ok()
            .unwrap();
        let written: Vec<String> = plan
            .actions
            .iter()
            .filter_map(|a| match a {
                FsAction::Write { path, .. } => Some(path.clone()),
                _ => None,
            })
            .collect();
        assert_eq!(written, plan.files);
    }
}

#[test]
fn sanitize_ident_twice_is_once() {
    for name in ["Title", "9lives", "naïve-field", "a b c", "__x"] {
        let once = sanitize_ident(name);
        assert_eq!(sanitize_ident(&once), once);
    }
}

#[test]
fn field_and_column_readings_agree() {
    for raw in [
        "title:string",
        "age:int?",
        "Body Text:text:default=it's",
        "n:int:default=3",
        "flag:bool?:default=1",
        "no_colon",
        "",
        ":?",
        "x:weird type?",
    ] {
        let f = parse_field(raw);
        let c = parse_sql_field(raw);
        assert_eq!(f.is_none(), !raw.contains(':'));
        assert_eq!(c.is_none(), !raw.contains(':'));
        if let (Some((n1, t1)), Some((n2, c2))) = (f, c) {
            let (name, rest) = raw.split_once(':').unwrap();
            assert_eq!(n1, n2);
            assert_eq!(n1, sanitize_ident(name));
            assert_eq!(t1.starts_with("Option<"), rest.contains('?'));
            assert_eq!(t1.starts_with("Option<"), c2.split(' ').nth(1) != Some("NOT"));
        }
    }
}

#[test]
fn migration_stamps_are_utc_digits() {
    let plan = plan_domain(&args("Post", vec![], true, false, true)).ok().unwrap();
    let m = plan.files.iter().find(|f| f.starts_with("migrations/")).unwrap();
    let stamp = &m["migrations/".len()..m.len() - "_create_posts.sql".len()];
    assert_eq!(stamp.len(), 14);
    assert!(stamp.chars().all(|c| c.is_ascii_digit()));
}
