//! Source text of the files that the domain generator writes.
use vstd::prelude::*;
use crate::generator::{field_decl, sql_field_decl, parse_field, parse_sql_field};
use crate::text::{contains_seq, lemma_contains_extend, lemma_contains_middle, push_str};

verus! {

/// The views of a sequence of strings.
pub open spec fn string_views(v: Seq<String>) -> Seq<Seq<char>> {
    v.map_values(|x: String| x@)
}

/// The `mod.rs` of a generated domain: its submodules.
pub open spec fn module_text(crud: bool) -> Seq<char> {
    if crud {
        "pub mod handlers;\n"@ + "pub mod model;\n"@ + "pub mod repository;\npub mod routes;\n"@
    } else {
        "pub mod handlers;\n"@ + "pub mod repository;\npub mod routes;\n"@
    }
}

/// The `mod.rs` of a generated domain.
pub fn module_source(crud: bool) -> (r: String)
    ensures
        r@ == module_text(crud),
{
    if crud {
        let mut r = "pub mod handlers;\n".to_owned();
        push_str(&mut r, "pub mod model;\n");
        push_str(&mut r, "pub mod repository;\npub mod routes;\n");
        proof {
            assert(r@ =~= module_text(crud));
        }
        r
    } else {
        let mut r = "pub mod handlers;\n".to_owned();
        push_str(&mut r, "pub mod repository;\npub mod routes;\n");
        proof {
            assert(r@ =~= module_text(crud));
        }
        r
    }
}

/// The `routes.rs` of a generated domain: no routes without web pages, the CRUD routes, or the index route.
pub open spec fn routes_text(name: Seq<char>, crud: bool, no_web: bool) -> Seq<char> {
    if no_web {
        "use axum::Router;\npub fn routes() -> Router<crate::state::AppState> { Router::new() }\n"@
    } else if crud {
        "use axum::{routing::{get, post}, Router};\nuse super::handlers;\n\npub fn routes() -> Router<crate::state::AppState> {\n    Router::new()\n        .route(\"/"@ + name + "\", get(handlers::index).post(handlers::create))\n        .route(\"/"@ + name + "/new\", get(handlers::new))\n        .route(\"/"@ + name + "/:id\", get(handlers::show).post(handlers::update))\n        .route(\"/"@ + name + "/:id/edit\", get(handlers::edit))\n        .route(\"/"@ + name + "/:id/delete\", post(handlers::delete))\n}\n"@
    } else {
        "use axum::{routing::get, Router};\nuse super::handlers;\n\npub fn routes() -> Router<crate::state::AppState> {\n    Router::new().route(\"/"@ + name + "\", get(handlers::index))\n}\n"@
    }
}

/// The `routes.rs` of a generated domain.
pub fn routes_source(name: &str, crud: bool, no_web: bool) -> (r: String)
    ensures
        r@ == routes_text(name@, crud, no_web),
{
    if no_web {
        let r = "use axum::Router;\npub fn routes() -> Router<crate::state::AppState> { Router::new() }\n".to_owned();
        proof {
            assert(r@ =~= routes_text(name@, crud, no_web));
        }
        r
    } else if crud {
        let mut r = "use axum::{routing::{get, post}, Router};\nuse super::handlers;\n\npub fn routes() -> Router<crate::state::AppState> {\n    Router::new()\n        .route(\"/".to_owned();
        push_str(&mut r, name);
        push_str(&mut r, "\", get(handlers::index).post(handlers::create))\n        .route(\"/");
        push_str(&mut r, name);
        push_str(&mut r, "/new\", get(handlers::new))\n        .route(\"/");
        push_str(&mut r, name);
        push_str(&mut r, "/:id\", get(handlers::show).post(handlers::update))\n        .route(\"/");
        push_str(&mut r, name);
        push_str(&mut r, "/:id/edit\", get(handlers::edit))\n        .route(\"/");
        push_str(&mut r, name);
        push_str(&mut r, "/:id/delete\", post(handlers::delete))\n}\n");
        proof {
            assert(r@ =~= routes_text(name@, crud, no_web));
        }
        r
    } else {
        let mut r = "use axum::{routing::get, Router};\nuse super::handlers;\n\npub fn routes() -> Router<crate::state::AppState> {\n    Router::new().route(\"/".to_owned();
        push_str(&mut r, name);
        push_str(&mut r, "\", get(handlers::index))\n}\n");
        proof {
            assert(r@ =~= routes_text(name@, crud, no_web));
        }
        r
    }
}

/// The `repository.rs` of a generated domain.
pub open spec fn repository_text(name: Seq<char>, crud: bool) -> Seq<char> {
    if crud {
        "use sqlx::SqlitePool;\n\n#[derive(Clone)]\npub struct Repository {\n    pool: SqlitePool,\n}\n\nimpl Repository {\n    pub fn new(pool: SqlitePool) -> Self {\n        Self { pool }\n    }"@ + "\n    // TODO: implement list/find/create/update/soft_delete queries.\n"@ + "}\n\n// Domain: "@ + name + "\n"@
    } else {
        "use sqlx::SqlitePool;\n\n#[derive(Clone)]\npub struct Repository {\n    pool: SqlitePool,\n}\n\nimpl Repository {\n    pub fn new(pool: SqlitePool) -> Self {\n        Self { pool }\n    }"@ + "\n    // TODO: implement domain queries.\n"@ + "}\n\n// Domain: "@ + name + "\n"@
    }
}

/// The `repository.rs` of a generated domain.
pub fn repository_source(name: &str, crud: bool) -> (r: String)
    ensures
        r@ == repository_text(name@, crud),
{
    if crud {
        let mut r = "use sqlx::SqlitePool;\n\n#[derive(Clone)]\npub struct Repository {\n    pool: SqlitePool,\n}\n\nimpl Repository {\n    pub fn new(pool: SqlitePool) -> Self {\n        Self { pool }\n    }".to_owned();
        push_str(&mut r, "\n    // TODO: implement list/find/create/update/soft_delete queries.\n");
        push_str(&mut r, "}\n\n// Domain: ");
        push_str(&mut r, name);
        push_str(&mut r, "\n");
        proof {
            assert(r@ =~= repository_text(name@, crud));
        }
        r
    } else {
        let mut r = "use sqlx::SqlitePool;\n\n#[derive(Clone)]\npub struct Repository {\n    pool: SqlitePool,\n}\n\nimpl Repository {\n    pub fn new(pool: SqlitePool) -> Self {\n        Self { pool }\n    }".to_owned();
        push_str(&mut r, "\n    // TODO: implement domain queries.\n");
        push_str(&mut r, "}\n\n// Domain: ");
        push_str(&mut r, name);
        push_str(&mut r, "\n");
        proof {
            assert(r@ =~= repository_text(name@, crud));
        }
        r
    }
}

/// The `handlers.rs` of a generated domain: page handlers, with the CRUD actions where asked for.
pub open spec fn handlers_text(name: Seq<char>, crud: bool) -> Seq<char> {
    if crud {
        "use crate::{error::AppResult, view::View};\nuse axum::{extract::Path, response::IntoResponse};\nuse serde::Deserialize;\nuse serde_json::json;\n\n#[derive(Debug, Deserialize)]\npub struct CreateInput {\n    pub csrf_token: String,\n    // TODO: add fields\n}\n\n#[derive(Debug, Deserialize)]\npub struct UpdateInput {\n    pub csrf_token: String,\n    // TODO: add fields\n}\n\npub async fn index(view: View) -> AppResult<impl IntoResponse> {\n    view.render(\"pages/"@ + name + "/index.html\", json!({\"items\": []}))\n}\n\npub async fn new(view: View) -> AppResult<impl IntoResponse> {\n    view.render(\"pages/"@ + name + "/new.html\", json!({}))\n}\n\npub async fn show(Path(id): Path<i64>, view: View) -> AppResult<impl IntoResponse> {\n    view.render(\"pages/"@ + name + "/show.html\", json!({\"id\": id}))\n}\n\npub async fn edit(Path(id): Path<i64>, view: View) -> AppResult<impl IntoResponse> {\n    view.render(\"pages/"@ + name + "/edit.html\", json!({\"id\": id}))\n}\n\npub async fn create() -> AppResult<impl IntoResponse> {\n    Ok(axum::response::Redirect::to(\"/"@ + name + "\"))\n}\n\npub async fn update(Path(_id): Path<i64>) -> AppResult<impl IntoResponse> {\n    Ok(axum::response::Redirect::to(\"/"@ + name + "\"))\n}\n\npub async fn delete(Path(_id): Path<i64>) -> AppResult<impl IntoResponse> {\n    Ok(axum::response::Redirect::to(\"/"@ + name + "\"))\n}\n"@
    } else {
        "use crate::{error::AppResult, view::View};\nuse axum::response::IntoResponse;\nuse serde_json::json;\n\npub async fn index(view: View) -> AppResult<impl IntoResponse> {\n    view.render(\"pages/"@ + name + "/index.html\", json!({}))\n}\n"@
    }
}

/// The `handlers.rs` of a generated domain.
pub fn handlers_source(name: &str, crud: bool) -> (r: String)
    ensures
        r@ == handlers_text(name@, crud),
{
    if crud {
        let mut r = "use crate::{error::AppResult, view::View};\nuse axum::{extract::Path, response::IntoResponse};\nuse serde::Deserialize;\nuse serde_json::json;\n\n#[derive(Debug, Deserialize)]\npub struct CreateInput {\n    pub csrf_token: String,\n    // TODO: add fields\n}\n\n#[derive(Debug, Deserialize)]\npub struct UpdateInput {\n    pub csrf_token: String,\n    // TODO: add fields\n}\n\npub async fn index(view: View) -> AppResult<impl IntoResponse> {\n    view.render(\"pages/".to_owned();
        push_str(&mut r, name);
        push_str(&mut r, "/index.html\", json!({\"items\": []}))\n}\n\npub async fn new(view: View) -> AppResult<impl IntoResponse> {\n    view.render(\"pages/");
        push_str(&mut r, name);
        push_str(&mut r, "/new.html\", json!({}))\n}\n\npub async fn show(Path(id): Path<i64>, view: View) -> AppResult<impl IntoResponse> {\n    view.render(\"pages/");
        push_str(&mut r, name);
        push_str(&mut r, "/show.html\", json!({\"id\": id}))\n}\n\npub async fn edit(Path(id): Path<i64>, view: View) -> AppResult<impl IntoResponse> {\n    view.render(\"pages/");
        push_str(&mut r, name);
        push_str(&mut r, "/edit.html\", json!({\"id\": id}))\n}\n\npub async fn create() -> AppResult<impl IntoResponse> {\n    Ok(axum::response::Redirect::to(\"/");
        push_str(&mut r, name);
        push_str(&mut r, "\"))\n}\n\npub async fn update(Path(_id): Path<i64>) -> AppResult<impl IntoResponse> {\n    Ok(axum::response::Redirect::to(\"/");
        push_str(&mut r, name);
        push_str(&mut r, "\"))\n}\n\npub async fn delete(Path(_id): Path<i64>) -> AppResult<impl IntoResponse> {\n    Ok(axum::response::Redirect::to(\"/");
        push_str(&mut r, name);
        push_str(&mut r, "\"))\n}\n");
        proof {
            assert(r@ =~= handlers_text(name@, crud));
        }
        r
    } else {
        let mut r = "use crate::{error::AppResult, view::View};\nuse axum::response::IntoResponse;\nuse serde_json::json;\n\npub async fn index(view: View) -> AppResult<impl IntoResponse> {\n    view.render(\"pages/".to_owned();
        push_str(&mut r, name);
        push_str(&mut r, "/index.html\", json!({}))\n}\n");
        proof {
            assert(r@ =~= handlers_text(name@, crud));
        }
        r
    }
}

/// A page template of a generated domain for one action.
pub open spec fn page_text(name: Seq<char>, action: Seq<char>) -> Seq<char> {
    "{% extends \"layouts/app.html\" %}\n{% block title %}"@ + action + " "@ + name + "{% endblock %}\n{% block content %}\n<section class=\"card\">\n  <h1>"@ + action + " "@ + name + "</h1>\n  <p class=\"muted\">Generated by Linger.</p>\n</section>\n{% endblock %}\n"@
}

/// A page template of a generated domain.
pub fn page_source(name: &str, action: &str) -> (r: String)
    ensures
        r@ == page_text(name@, action@),
{
    let mut r = "{% extends \"layouts/app.html\" %}\n{% block title %}".to_owned();
    push_str(&mut r, action);
    push_str(&mut r, " ");
    push_str(&mut r, name);
    push_str(&mut r, "{% endblock %}\n{% block content %}\n<section class=\"card\">\n  <h1>");
    push_str(&mut r, action);
    push_str(&mut r, " ");
    push_str(&mut r, name);
    push_str(&mut r, "</h1>\n  <p class=\"muted\">Generated by Linger.</p>\n</section>\n{% endblock %}\n");
    proof {
        assert(r@ =~= page_text(name@, action@));
    }
    r
}

/// The `_form.html` partial of a generated domain.
pub open spec fn form_text(name: Seq<char>) -> Seq<char> {
    "<form method=\"post\">\n  <input type=\"hidden\" name=\"csrf_token\" value=\"{{ csrf_token }}\">\n  <!-- TODO: add "@ + name + " fields -->\n  <button type=\"submit\">Save</button>\n</form>\n"@
}

/// The `_form.html` partial of a generated domain.
pub fn form_partial(name: &str) -> (r: String)
    ensures
        r@ == form_text(name@),
{
    let mut r = "<form method=\"post\">\n  <input type=\"hidden\" name=\"csrf_token\" value=\"{{ csrf_token }}\">\n  <!-- TODO: add ".to_owned();
    push_str(&mut r, name);
    push_str(&mut r, " fields -->\n  <button type=\"submit\">Save</button>\n</form>\n");
    proof {
        assert(r@ =~= form_text(name@));
    }
    r
}

/// The `_row.html` partial of a generated domain.
pub open spec fn row_text(name: Seq<char>) -> Seq<char> {
    "<tr><td>{{ item.id }}</td><td>"@ + name + "</td></tr>\n"@
}

/// The `_row.html` partial of a generated domain.
pub fn row_partial(name: &str) -> (r: String)
    ensures
        r@ == row_text(name@),
{
    let mut r = "<tr><td>{{ item.id }}</td><td>".to_owned();
    push_str(&mut r, name);
    push_str(&mut r, "</td></tr>\n");
    proof {
        assert(r@ =~= row_text(name@));
    }
    r
}

/// The line that declares a generated domain in `src/lib.rs`.
pub open spec fn module_declaration_text(name: Seq<char>) -> Seq<char> {
    "pub mod "@ + name + ";\n"@
}

/// The line that declares a generated domain in `src/lib.rs`.
pub fn module_declaration(name: &str) -> (r: String)
    ensures
        r@ == module_declaration_text(name@),
{
    let mut r = "pub mod ".to_owned();
    push_str(&mut r, name);
    push_str(&mut r, ";\n");
    proof {
        assert(r@ =~= module_declaration_text(name@));
    }
    r
}

/// The note left in `src/router.rs` for a generated domain.
pub open spec fn route_reminder_text(name: Seq<char>) -> Seq<char> {
    "\n// TODO: wire generated domain route: .merge(crate::"@ + name + "::routes::routes())\n"@
}

/// The note left in `src/router.rs` for a generated domain.
pub fn route_reminder(name: &str) -> (r: String)
    ensures
        r@ == route_reminder_text(name@),
{
    let mut r = "\n// TODO: wire generated domain route: .merge(crate::".to_owned();
    push_str(&mut r, name);
    push_str(&mut r, "::routes::routes())\n");
    proof {
        assert(r@ =~= route_reminder_text(name@));
    }
    r
}

/// The note left in `src/repositories.rs` for a generated domain.
pub open spec fn repository_reminder_text(name: Seq<char>) -> Seq<char> {
    "\n// TODO: add "@ + name + " repository factory when schema is finalized.\n"@
}

/// The note left in `src/repositories.rs` for a generated domain.
pub fn repository_reminder(name: &str) -> (r: String)
    ensures
        r@ == repository_reminder_text(name@),
{
    let mut r = "\n// TODO: add ".to_owned();
    push_str(&mut r, name);
    push_str(&mut r, " repository factory when schema is finalized.\n");
    proof {
        assert(r@ =~= repository_reminder_text(name@));
    }
    r
}

/// The struct field lines of a model, one per field specification that
/// declares a field.
pub open spec fn model_field_lines(fields: Seq<Seq<char>>) -> Seq<char>
    decreases fields.len(),
{
    if fields.len() == 0 {
        Seq::<char>::empty()
    } else {
        model_field_lines(fields.drop_last()) + match field_decl(fields.last()) {
            Some((n, t)) => "    pub "@ + n + ": "@ + t + ",\n"@,
            None => Seq::<char>::empty(),
        }
    }
}

/// The `model.rs` of a generated domain: a row struct with the declared
/// fields between the id and the timestamps.
pub open spec fn model_text(name: Seq<char>, fields: Seq<Seq<char>>) -> Seq<char> {
    "use chrono::{DateTime, Utc};\nuse serde::{Deserialize, Serialize};\n\n#[derive(Debug, Clone, Serialize, Deserialize, sqlx::FromRow)]\npub struct Row {\n    pub id: i64,\n"@
        + model_field_lines(fields)
        + "    pub created_at: DateTime<Utc>,\n    pub updated_at: DateTime<Utc>,\n    pub deleted_at: Option<DateTime<Utc>>,\n}\n"@
        + "\n// Domain model for "@ + name + ". Rename Row to a domain-specific type when desired.\n"@
}

/// The `model.rs` of a generated domain.
pub fn model_source(name: &str, fields: &[String]) -> (r: String)
    ensures
        r@ == model_text(name@, string_views(fields@)),
{
    let mut r = "use chrono::{DateTime, Utc};\nuse serde::{Deserialize, Serialize};\n\n#[derive(Debug, Clone, Serialize, Deserialize, sqlx::FromRow)]\npub struct Row {\n    pub id: i64,\n".to_owned();
    let ghost head = r@;
    let mut i: usize = 0;
    proof {
        assert(string_views(fields@).take(0) =~= Seq::<Seq<char>>::empty());
        assert(head + model_field_lines(Seq::<Seq<char>>::empty()) =~= head);
    }
    while i < fields.len()
        invariant
            i <= fields@.len(),
            r@ == head + model_field_lines(string_views(fields@).take(i as int)),
        decreases fields@.len() - i,
    {
        let f = &fields[i];
        if let Some((field_name, rust_ty)) = parse_field(f.as_str()) {
            push_str(&mut r, "    pub ");
            push_str(&mut r, field_name.as_str());
            push_str(&mut r, ": ");
            push_str(&mut r, rust_ty.as_str());
            push_str(&mut r, ",\n");
        }
        proof {
            let vs = string_views(fields@);
            assert(vs.take(i + 1).drop_last() =~= vs.take(i as int));
            assert(vs.take(i + 1).last() == fields@[i as int]@);
            assert(r@ =~= head + model_field_lines(vs.take(i + 1)));
        }
        i += 1;
    }
    proof {
        assert(string_views(fields@).take(fields@.len() as int) =~= string_views(fields@));
    }
    push_str(&mut r, "    pub created_at: DateTime<Utc>,\n    pub updated_at: DateTime<Utc>,\n    pub deleted_at: Option<DateTime<Utc>>,\n}\n");
    push_str(&mut r, "\n// Domain model for ");
    push_str(&mut r, name);
    push_str(&mut r, ". Rename Row to a domain-specific type when desired.\n");
    proof {
        assert(r@ =~= model_text(name@, string_views(fields@)));
    }
    r
}

/// The column lines of a table, one per field specification that declares
/// a column.
pub open spec fn migration_column_lines(fields: Seq<Seq<char>>) -> Seq<char>
    decreases fields.len(),
{
    if fields.len() == 0 {
        Seq::<char>::empty()
    } else {
        migration_column_lines(fields.drop_last()) + match sql_field_decl(fields.last()) {
            Some((n, t)) => "    "@ + n + " "@ + t + ",\n"@,
            None => Seq::<char>::empty(),
        }
    }
}

/// The migration of a generated domain: a table with the declared columns
/// between the id and the timestamps.
pub open spec fn migration_text(name: Seq<char>, fields: Seq<Seq<char>>) -> Seq<char> {
    "CREATE TABLE IF NOT EXISTS "@ + name + " (\n    id INTEGER PRIMARY KEY AUTOINCREMENT,\n"@
        + migration_column_lines(fields)
        + "    created_at TEXT NOT NULL DEFAULT CURRENT_TIMESTAMP,\n    updated_at TEXT NOT NULL DEFAULT CURRENT_TIMESTAMP,\n    deleted_at TEXT\n);\n"@
}

/// The SQL migration of a generated domain.
pub fn migration_source(name: &str, fields: &[String]) -> (r: String)
    ensures
        r@ == migration_text(name@, string_views(fields@)),
{
    let mut r = "CREATE TABLE IF NOT EXISTS ".to_owned();
    push_str(&mut r, name);
    push_str(&mut r, " (\n    id INTEGER PRIMARY KEY AUTOINCREMENT,\n");
    let ghost head = r@;
    let mut i: usize = 0;
    proof {
        assert(string_views(fields@).take(0) =~= Seq::<Seq<char>>::empty());
        assert(head + migration_column_lines(Seq::<Seq<char>>::empty()) =~= head);
    }
    while i < fields.len()
        invariant
            i <= fields@.len(),
            r@ == head + migration_column_lines(string_views(fields@).take(i as int)),
        decreases fields@.len() - i,
    {
        let f = &fields[i];
        if let Some((field_name, sql_ty)) = parse_sql_field(f.as_str()) {
            push_str(&mut r, "    ");
            push_str(&mut r, field_name.as_str());
            push_str(&mut r, " ");
            push_str(&mut r, sql_ty.as_str());
            push_str(&mut r, ",\n");
        }
        proof {
            let vs = string_views(fields@);
            assert(vs.take(i + 1).drop_last() =~= vs.take(i as int));
            assert(vs.take(i + 1).last() == fields@[i as int]@);
            assert(r@ =~= head + migration_column_lines(vs.take(i + 1)));
        }
        i += 1;
    }
    proof {
        assert(string_views(fields@).take(fields@.len() as int) =~= string_views(fields@));
    }
    push_str(&mut r, "    created_at TEXT NOT NULL DEFAULT CURRENT_TIMESTAMP,\n    updated_at TEXT NOT NULL DEFAULT CURRENT_TIMESTAMP,\n    deleted_at TEXT\n);\n");
    proof {
        assert(r@ =~= migration_text(name@, string_views(fields@)));
    }
    r
}

/// The column line of a field specification that declares a column:
/// `name definition,`.
pub open spec fn column_line(spec: Seq<char>) -> Seq<char> {
    match sql_field_decl(spec) {
        Some((n, c)) => "    "@ + n + " "@ + c + ",\n"@,
        None => Seq::<char>::empty(),
    }
}

/// The struct field line of a field specification that declares a field:
/// `pub name: Type,`.
pub open spec fn field_line(spec: Seq<char>) -> Seq<char> {
    match field_decl(spec) {
        Some((n, t)) => "    pub "@ + n + ": "@ + t + ",\n"@,
        None => Seq::<char>::empty(),
    }
}

/// Every field specification that declares a column has its line,
/// `name definition,`, among the column lines of the table.
pub proof fn lemma_column_line_present(fields: Seq<Seq<char>>, i: int)
    requires
        0 <= i < fields.len(),
        sql_field_decl(fields[i]) is Some,
    ensures
        contains_seq(
            migration_column_lines(fields),
            column_line(fields[i]),
        ),
    decreases fields.len(),
{
    let line = column_line(fields[i]);
    let prev = migration_column_lines(fields.drop_last());
    if i == fields.len() - 1 {
        assert(migration_column_lines(fields) == prev + line);
        lemma_contains_middle(prev, line, Seq::<char>::empty());
        assert(prev + line + Seq::<char>::empty() =~= prev + line);
    } else {
        assert(fields.drop_last()[i] == fields[i]);
        lemma_column_line_present(fields.drop_last(), i);
        let last = match sql_field_decl(fields.last()) {
            Some((n, t)) => "    "@ + n + " "@ + t + ",\n"@,
            None => Seq::<char>::empty(),
        };
        assert(migration_column_lines(fields) == prev + last);
        lemma_contains_extend(prev, last, line);
    }
}

/// Every field specification that declares a field has its line,
/// `pub name: Type,`, among the field lines of the model.
pub proof fn lemma_field_line_present(fields: Seq<Seq<char>>, i: int)
    requires
        0 <= i < fields.len(),
        field_decl(fields[i]) is Some,
    ensures
        contains_seq(
            model_field_lines(fields),
            field_line(fields[i]),
        ),
    decreases fields.len(),
{
    let line = field_line(fields[i]);
    let prev = model_field_lines(fields.drop_last());
    if i == fields.len() - 1 {
        assert(model_field_lines(fields) == prev + line);
        lemma_contains_middle(prev, line, Seq::<char>::empty());
        assert(prev + line + Seq::<char>::empty() =~= prev + line);
    } else {
        assert(fields.drop_last()[i] == fields[i]);
        lemma_field_line_present(fields.drop_last(), i);
        let last = match field_decl(fields.last()) {
            Some((n, t)) => "    pub "@ + n + ": "@ + t + ",\n"@,
            None => Seq::<char>::empty(),
        };
        assert(model_field_lines(fields) == prev + last);
        lemma_contains_extend(prev, last, line);
    }
}

/// The migration of a domain has a column line for every field
/// specification that declares a column.
pub proof fn lemma_migration_has_column(name: Seq<char>, fields: Seq<Seq<char>>, i: int)
    requires
        0 <= i < fields.len(),
        sql_field_decl(fields[i]) is Some,
    ensures
        contains_seq(
            migration_text(name, fields),
            column_line(fields[i]),
        ),
{
    let line = column_line(fields[i]);
    let head = "CREATE TABLE IF NOT EXISTS "@ + name + " (\n    id INTEGER PRIMARY KEY AUTOINCREMENT,\n"@;
    let lines = migration_column_lines(fields);
    let tail = "    created_at TEXT NOT NULL DEFAULT CURRENT_TIMESTAMP,\n    updated_at TEXT NOT NULL DEFAULT CURRENT_TIMESTAMP,\n    deleted_at TEXT\n);\n"@;
    lemma_column_line_present(fields, i);
    lemma_contains_extend(lines, head, line);
    lemma_contains_extend(head + lines, tail, line);
}

/// The model of a domain has a field line for every field specification
/// that declares a field.
pub proof fn lemma_model_has_field(name: Seq<char>, fields: Seq<Seq<char>>, i: int)
    requires
        0 <= i < fields.len(),
        field_decl(fields[i]) is Some,
    ensures
        contains_seq(
            model_text(name, fields),
            field_line(fields[i]),
        ),
{
    let line = field_line(fields[i]);
    let head = "use chrono::{DateTime, Utc};\nuse serde::{Deserialize, Serialize};\n\n#[derive(Debug, Clone, Serialize, Deserialize, sqlx::FromRow)]\npub struct Row {\n    pub id: i64,\n"@;
    let lines = model_field_lines(fields);
    let a = "    pub created_at: DateTime<Utc>,\n    pub updated_at: DateTime<Utc>,\n    pub deleted_at: Option<DateTime<Utc>>,\n}\n"@;
    let b = "\n// Domain model for "@;
    let c = ". Rename Row to a domain-specific type when desired.\n"@;
    lemma_field_line_present(fields, i);
    lemma_contains_extend(lines, head, line);
    lemma_contains_extend(head + lines, a, line);
    lemma_contains_extend(head + lines + a, b, line);
    lemma_contains_extend(head + lines + a + b, name, line);
    lemma_contains_extend(head + lines + a + b + name, c, line);
}

/// The start of a route of a generated `routes.rs`: `.route("/<name><path>", `.
pub open spec fn route_head(name: Seq<char>, path: Seq<char>) -> Seq<char> {
    ".route(\"/"@ + name + path + "\", "@
}

/// A method router that calls a handler of the generated `handlers.rs`:
/// `<method>(handlers::<handler>)`.
pub open spec fn handler_call(method: Seq<char>, handler: Seq<char>) -> Seq<char> {
    method + "(handlers::"@ + handler + ")"@
}

/// Every route of a generated CRUD `routes.rs` is served by the handler of
/// its own action, and `handlers.rs` defines each of them: `GET /<name>`
/// by `index` and `POST /<name>` by `create`, `GET /<name>/new` by `new`,
/// `GET /<name>/:id` by `show` and `POST /<name>/:id` by `update`,
/// `GET /<name>/:id/edit` by `edit`, and `POST /<name>/:id/delete` by
/// `delete`.
pub proof fn lemma_crud_routes_call_their_handlers(name: Seq<char>)
    ensures
        contains_seq(routes_text(name, true, false), route_head(name, ""@) + handler_call("get"@, "index"@) + "."@ + handler_call("post"@, "create"@)),
        contains_seq(routes_text(name, true, false), route_head(name, "/new"@) + handler_call("get"@, "new"@)),
        contains_seq(routes_text(name, true, false), route_head(name, "/:id"@) + handler_call("get"@, "show"@) + "."@ + handler_call("post"@, "update"@)),
        contains_seq(routes_text(name, true, false), route_head(name, "/:id/edit"@) + handler_call("get"@, "edit"@)),
        contains_seq(routes_text(name, true, false), route_head(name, "/:id/delete"@) + handler_call("post"@, "delete"@)),
        contains_seq(handlers_text(name, true), "pub async fn "@ + "index"@ + "("@),
        contains_seq(handlers_text(name, true), "pub async fn "@ + "new"@ + "("@),
        contains_seq(handlers_text(name, true), "pub async fn "@ + "show"@ + "("@),
        contains_seq(handlers_text(name, true), "pub async fn "@ + "edit"@ + "("@),
        contains_seq(handlers_text(name, true), "pub async fn "@ + "create"@ + "("@),
        contains_seq(handlers_text(name, true), "pub async fn "@ + "update"@ + "("@),
        contains_seq(handlers_text(name, true), "pub async fn "@ + "delete"@ + "("@),
{
    reveal_strlit("");
    reveal_strlit("(");
    reveal_strlit("(handlers::");
    reveal_strlit(")");
    reveal_strlit(") -> AppResult<impl IntoResponse> {\n    Ok(axum::response::Redirect::to(\"/");
    reveal_strlit(")\n        .route(\"/");
    reveal_strlit(")\n}\n");
    reveal_strlit(".");
    reveal_strlit(".route(\"/");
    reveal_strlit("/:id");
    reveal_strlit("/:id/delete");
    reveal_strlit("/:id/delete\", post(handlers::delete)");
    reveal_strlit("/:id/delete\", post(handlers::delete))\n}\n");
    reveal_strlit("/:id/edit");
    reveal_strlit("/:id/edit\", get(handlers::edit)");
    reveal_strlit("/:id/edit\", get(handlers::edit))\n        ");
    reveal_strlit("/:id/edit\", get(handlers::edit))\n        .route(\"/");
    reveal_strlit("/:id\", get(handlers::show).post(handlers::update)");
    reveal_strlit("/:id\", get(handlers::show).post(handlers::update))\n        ");
    reveal_strlit("/:id\", get(handlers::show).post(handlers::update))\n        .route(\"/");
    reveal_strlit("/edit.html\", json!({\"id\": id}))\n}\n\n");
    reveal_strlit("/edit.html\", json!({\"id\": id}))\n}\n\npub async fn create() -> AppResult<impl IntoResponse> {\n    Ok(axum::response::Redirect::to(\"/");
    reveal_strlit("/index.html\", json!({\"items\": []}))\n}\n\n");
    reveal_strlit("/index.html\", json!({\"items\": []}))\n}\n\npub async fn new(view: View) -> AppResult<impl IntoResponse> {\n    view.render(\"pages/");
    reveal_strlit("/new");
    reveal_strlit("/new.html\", json!({}))\n}\n\n");
    reveal_strlit("/new.html\", json!({}))\n}\n\npub async fn show(Path(id): Path<i64>, view: View) -> AppResult<impl IntoResponse> {\n    view.render(\"pages/");
    reveal_strlit("/new\", get(handlers::new)");
    reveal_strlit("/new\", get(handlers::new))\n        ");
    reveal_strlit("/new\", get(handlers::new))\n        .route(\"/");
    reveal_strlit("/show.html\", json!({\"id\": id}))\n}\n\n");
    reveal_strlit("/show.html\", json!({\"id\": id}))\n}\n\npub async fn edit(Path(id): Path<i64>, view: View) -> AppResult<impl IntoResponse> {\n    view.render(\"pages/");
    reveal_strlit("Path(_id): Path<i64>) -> AppResult<impl IntoResponse> {\n    Ok(axum::response::Redirect::to(\"/");
    reveal_strlit("Path(id): Path<i64>, view: View) -> AppResult<impl IntoResponse> {\n    view.render(\"pages/");
    reveal_strlit("\"))\n}\n\n");
    reveal_strlit("\"))\n}\n\npub async fn delete(Path(_id): Path<i64>) -> AppResult<impl IntoResponse> {\n    Ok(axum::response::Redirect::to(\"/");
    reveal_strlit("\"))\n}\n\npub async fn update(Path(_id): Path<i64>) -> AppResult<impl IntoResponse> {\n    Ok(axum::response::Redirect::to(\"/");
    reveal_strlit("\", ");
    reveal_strlit("\", get(handlers::index).post(handlers::create)");
    reveal_strlit("\", get(handlers::index).post(handlers::create))\n        ");
    reveal_strlit("\", get(handlers::index).post(handlers::create))\n        .route(\"/");
    reveal_strlit("create");
    reveal_strlit("delete");
    reveal_strlit("edit");
    reveal_strlit("get");
    reveal_strlit("index");
    reveal_strlit("new");
    reveal_strlit("post");
    reveal_strlit("pub async fn ");
    reveal_strlit("show");
    reveal_strlit("update");
    reveal_strlit("use axum::{routing::{get, post}, Router};\nuse super::handlers;\n\npub fn routes() -> Router<crate::state::AppState> {\n    Router::new()\n        ");
    reveal_strlit("use axum::{routing::{get, post}, Router};\nuse super::handlers;\n\npub fn routes() -> Router<crate::state::AppState> {\n    Router::new()\n        .route(\"/");
    reveal_strlit("use crate::{error::AppResult, view::View};\nuse axum::{extract::Path, response::IntoResponse};\nuse serde::Deserialize;\nuse serde_json::json;\n\n#[derive(Debug, Deserialize)]\npub struct CreateInput {\n    pub csrf_token: String,\n    // TODO: add fields\n}\n\n#[derive(Debug, Deserialize)]\npub struct UpdateInput {\n    pub csrf_token: String,\n    // TODO: add fields\n}\n\n");
    reveal_strlit("use crate::{error::AppResult, view::View};\nuse axum::{extract::Path, response::IntoResponse};\nuse serde::Deserialize;\nuse serde_json::json;\n\n#[derive(Debug, Deserialize)]\npub struct CreateInput {\n    pub csrf_token: String,\n    // TODO: add fields\n}\n\n#[derive(Debug, Deserialize)]\npub struct UpdateInput {\n    pub csrf_token: String,\n    // TODO: add fields\n}\n\npub async fn index(view: View) -> AppResult<impl IntoResponse> {\n    view.render(\"pages/");
    reveal_strlit("view: View) -> AppResult<impl IntoResponse> {\n    view.render(\"pages/");
    {
    assert("use axum::{routing::{get, post}, Router};\nuse super::handlers;\n\npub fn routes() -> Router<crate::state::AppState> {\n    Router::new()\n        .route(\"/"@ =~= "use axum::{routing::{get, post}, Router};\nuse super::handlers;\n\npub fn routes() -> Router<crate::state::AppState> {\n    Router::new()\n        "@ + ".route(\"/"@);
    assert("\", get(handlers::index).post(handlers::create))\n        .route(\"/"@ =~= "\", get(handlers::index).post(handlers::create)"@ + ")\n        .route(\"/"@);
    assert("\", get(handlers::index).post(handlers::create)"@ =~= ""@ + "\", "@ + "get"@ + "(handlers::"@ + "index"@ + ")"@ + "."@ + "post"@ + "(handlers::"@ + "create"@ + ")"@);
    let t = "use axum::{routing::{get, post}, Router};\nuse super::handlers;\n\npub fn routes() -> Router<crate::state::AppState> {\n    Router::new()\n        .route(\"/"@ + name + "\", get(handlers::index).post(handlers::create))\n        .route(\"/"@;
    assert(t =~= ("use axum::{routing::{get, post}, Router};\nuse super::handlers;\n\npub fn routes() -> Router<crate::state::AppState> {\n    Router::new()\n        "@) + (route_head(name, ""@) + handler_call("get"@, "index"@) + "."@ + handler_call("post"@, "create"@)) + ")\n        .route(\"/"@);
    lemma_contains_middle("use axum::{routing::{get, post}, Router};\nuse super::handlers;\n\npub fn routes() -> Router<crate::state::AppState> {\n    Router::new()\n        "@, route_head(name, ""@) + handler_call("get"@, "index"@) + "."@ + handler_call("post"@, "create"@), ")\n        .route(\"/"@);
    let cur = t;
    lemma_contains_extend(cur, name, route_head(name, ""@) + handler_call("get"@, "index"@) + "."@ + handler_call("post"@, "create"@));
    let cur = cur + name;
    lemma_contains_extend(cur, "/new\", get(handlers::new))\n        .route(\"/"@, route_head(name, ""@) + handler_call("get"@, "index"@) + "."@ + handler_call("post"@, "create"@));
    let cur = cur + "/new\", get(handlers::new))\n        .route(\"/"@;
    lemma_contains_extend(cur, name, route_head(name, ""@) + handler_call("get"@, "index"@) + "."@ + handler_call("post"@, "create"@));
    let cur = cur + name;
    lemma_contains_extend(cur, "/:id\", get(handlers::show).post(handlers::update))\n        .route(\"/"@, route_head(name, ""@) + handler_call("get"@, "index"@) + "."@ + handler_call("post"@, "create"@));
    let cur = cur + "/:id\", get(handlers::show).post(handlers::update))\n        .route(\"/"@;
    lemma_contains_extend(cur, name, route_head(name, ""@) + handler_call("get"@, "index"@) + "."@ + handler_call("post"@, "create"@));
    let cur = cur + name;
    lemma_contains_extend(cur, "/:id/edit\", get(handlers::edit))\n        .route(\"/"@, route_head(name, ""@) + handler_call("get"@, "index"@) + "."@ + handler_call("post"@, "create"@));
    let cur = cur + "/:id/edit\", get(handlers::edit))\n        .route(\"/"@;
    lemma_contains_extend(cur, name, route_head(name, ""@) + handler_call("get"@, "index"@) + "."@ + handler_call("post"@, "create"@));
    let cur = cur + name;
    lemma_contains_extend(cur, "/:id/delete\", post(handlers::delete))\n}\n"@, route_head(name, ""@) + handler_call("get"@, "index"@) + "."@ + handler_call("post"@, "create"@));
    let cur = cur + "/:id/delete\", post(handlers::delete))\n}\n"@;
    assert(cur == routes_text(name, true, false));
    }
    {
    assert("\", get(handlers::index).post(handlers::create))\n        .route(\"/"@ =~= "\", get(handlers::index).post(handlers::create))\n        "@ + ".route(\"/"@);
    assert("/new\", get(handlers::new))\n        .route(\"/"@ =~= "/new\", get(handlers::new)"@ + ")\n        .route(\"/"@);
    assert("/new\", get(handlers::new)"@ =~= "/new"@ + "\", "@ + "get"@ + "(handlers::"@ + "new"@ + ")"@);
    let t = "use axum::{routing::{get, post}, Router};\nuse super::handlers;\n\npub fn routes() -> Router<crate::state::AppState> {\n    Router::new()\n        .route(\"/"@ + name + "\", get(handlers::index).post(handlers::create))\n        .route(\"/"@ + name + "/new\", get(handlers::new))\n        .route(\"/"@;
    assert(t =~= ("use axum::{routing::{get, post}, Router};\nuse super::handlers;\n\npub fn routes() -> Router<crate::state::AppState> {\n    Router::new()\n        .route(\"/"@ + name + "\", get(handlers::index).post(handlers::create))\n        "@) + (route_head(name, "/new"@) + handler_call("get"@, "new"@)) + ")\n        .route(\"/"@);
    lemma_contains_middle("use axum::{routing::{get, post}, Router};\nuse super::handlers;\n\npub fn routes() -> Router<crate::state::AppState> {\n    Router::new()\n        .route(\"/"@ + name + "\", get(handlers::index).post(handlers::create))\n        "@, route_head(name, "/new"@) + handler_call("get"@, "new"@), ")\n        .route(\"/"@);
    let cur = t;
    lemma_contains_extend(cur, name, route_head(name, "/new"@) + handler_call("get"@, "new"@));
    let cur = cur + name;
    lemma_contains_extend(cur, "/:id\", get(handlers::show).post(handlers::update))\n        .route(\"/"@, route_head(name, "/new"@) + handler_call("get"@, "new"@));
    let cur = cur + "/:id\", get(handlers::show).post(handlers::update))\n        .route(\"/"@;
    lemma_contains_extend(cur, name, route_head(name, "/new"@) + handler_call("get"@, "new"@));
    let cur = cur + name;
    lemma_contains_extend(cur, "/:id/edit\", get(handlers::edit))\n        .route(\"/"@, route_head(name, "/new"@) + handler_call("get"@, "new"@));
    let cur = cur + "/:id/edit\", get(handlers::edit))\n        .route(\"/"@;
    lemma_contains_extend(cur, name, route_head(name, "/new"@) + handler_call("get"@, "new"@));
    let cur = cur + name;
    lemma_contains_extend(cur, "/:id/delete\", post(handlers::delete))\n}\n"@, route_head(name, "/new"@) + handler_call("get"@, "new"@));
    let cur = cur + "/:id/delete\", post(handlers::delete))\n}\n"@;
    assert(cur == routes_text(name, true, false));
    }
    {
    assert("/new\", get(handlers::new))\n        .route(\"/"@ =~= "/new\", get(handlers::new))\n        "@ + ".route(\"/"@);
    assert("/:id\", get(handlers::show).post(handlers::update))\n        .route(\"/"@ =~= "/:id\", get(handlers::show).post(handlers::update)"@ + ")\n        .route(\"/"@);
    assert("/:id\", get(handlers::show).post(handlers::update)"@ =~= "/:id"@ + "\", "@ + "get"@ + "(handlers::"@ + "show"@ + ")"@ + "."@ + "post"@ + "(handlers::"@ + "update"@ + ")"@);
    let t = "use axum::{routing::{get, post}, Router};\nuse super::handlers;\n\npub fn routes() -> Router<crate::state::AppState> {\n    Router::new()\n        .route(\"/"@ + name + "\", get(handlers::index).post(handlers::create))\n        .route(\"/"@ + name + "/new\", get(handlers::new))\n        .route(\"/"@ + name + "/:id\", get(handlers::show).post(handlers::update))\n        .route(\"/"@;
    assert(t =~= ("use axum::{routing::{get, post}, Router};\nuse super::handlers;\n\npub fn routes() -> Router<crate::state::AppState> {\n    Router::new()\n        .route(\"/"@ + name + "\", get(handlers::index).post(handlers::create))\n        .route(\"/"@ + name + "/new\", get(handlers::new))\n        "@) + (route_head(name, "/:id"@) + handler_call("get"@, "show"@) + "."@ + handler_call("post"@, "update"@)) + ")\n        .route(\"/"@);
    lemma_contains_middle("use axum::{routing::{get, post}, Router};\nuse super::handlers;\n\npub fn routes() -> Router<crate::state::AppState> {\n    Router::new()\n        .route(\"/"@ + name + "\", get(handlers::index).post(handlers::create))\n        .route(\"/"@ + name + "/new\", get(handlers::new))\n        "@, route_head(name, "/:id"@) + handler_call("get"@, "show"@) + "."@ + handler_call("post"@, "update"@), ")\n        .route(\"/"@);
    let cur = t;
    lemma_contains_extend(cur, name, route_head(name, "/:id"@) + handler_call("get"@, "show"@) + "."@ + handler_call("post"@, "update"@));
    let cur = cur + name;
    lemma_contains_extend(cur, "/:id/edit\", get(handlers::edit))\n        .route(\"/"@, route_head(name, "/:id"@) + handler_call("get"@, "show"@) + "."@ + handler_call("post"@, "update"@));
    let cur = cur + "/:id/edit\", get(handlers::edit))\n        .route(\"/"@;
    lemma_contains_extend(cur, name, route_head(name, "/:id"@) + handler_call("get"@, "show"@) + "."@ + handler_call("post"@, "update"@));
    let cur = cur + name;
    lemma_contains_extend(cur, "/:id/delete\", post(handlers::delete))\n}\n"@, route_head(name, "/:id"@) + handler_call("get"@, "show"@) + "."@ + handler_call("post"@, "update"@));
    let cur = cur + "/:id/delete\", post(handlers::delete))\n}\n"@;
    assert(cur == routes_text(name, true, false));
    }
    {
    assert("/:id\", get(handlers::show).post(handlers::update))\n        .route(\"/"@ =~= "/:id\", get(handlers::show).post(handlers::update))\n        "@ + ".route(\"/"@);
    assert("/:id/edit\", get(handlers::edit))\n        .route(\"/"@ =~= "/:id/edit\", get(handlers::edit)"@ + ")\n        .route(\"/"@);
    assert("/:id/edit\", get(handlers::edit)"@ =~= "/:id/edit"@ + "\", "@ + "get"@ + "(handlers::"@ + "edit"@ + ")"@);
    let t = "use axum::{routing::{get, post}, Router};\nuse super::handlers;\n\npub fn routes() -> Router<crate::state::AppState> {\n    Router::new()\n        .route(\"/"@ + name + "\", get(handlers::index).post(handlers::create))\n        .route(\"/"@ + name + "/new\", get(handlers::new))\n        .route(\"/"@ + name + "/:id\", get(handlers::show).post(handlers::update))\n        .route(\"/"@ + name + "/:id/edit\", get(handlers::edit))\n        .route(\"/"@;
    assert(t =~= ("use axum::{routing::{get, post}, Router};\nuse super::handlers;\n\npub fn routes() -> Router<crate::state::AppState> {\n    Router::new()\n        .route(\"/"@ + name + "\", get(handlers::index).post(handlers::create))\n        .route(\"/"@ + name + "/new\", get(handlers::new))\n        .route(\"/"@ + name + "/:id\", get(handlers::show).post(handlers::update))\n        "@) + (route_head(name, "/:id/edit"@) + handler_call("get"@, "edit"@)) + ")\n        .route(\"/"@);
    lemma_contains_middle("use axum::{routing::{get, post}, Router};\nuse super::handlers;\n\npub fn routes() -> Router<crate::state::AppState> {\n    Router::new()\n        .route(\"/"@ + name + "\", get(handlers::index).post(handlers::create))\n        .route(\"/"@ + name + "/new\", get(handlers::new))\n        .route(\"/"@ + name + "/:id\", get(handlers::show).post(handlers::update))\n        "@, route_head(name, "/:id/edit"@) + handler_call("get"@, "edit"@), ")\n        .route(\"/"@);
    let cur = t;
    lemma_contains_extend(cur, name, route_head(name, "/:id/edit"@) + handler_call("get"@, "edit"@));
    let cur = cur + name;
    lemma_contains_extend(cur, "/:id/delete\", post(handlers::delete))\n}\n"@, route_head(name, "/:id/edit"@) + handler_call("get"@, "edit"@));
    let cur = cur + "/:id/delete\", post(handlers::delete))\n}\n"@;
    assert(cur == routes_text(name, true, false));
    }
    {
    assert("/:id/edit\", get(handlers::edit))\n        .route(\"/"@ =~= "/:id/edit\", get(handlers::edit))\n        "@ + ".route(\"/"@);
    assert("/:id/delete\", post(handlers::delete))\n}\n"@ =~= "/:id/delete\", post(handlers::delete)"@ + ")\n}\n"@);
    assert("/:id/delete\", post(handlers::delete)"@ =~= "/:id/delete"@ + "\", "@ + "post"@ + "(handlers::"@ + "delete"@ + ")"@);
    let t = "use axum::{routing::{get, post}, Router};\nuse super::handlers;\n\npub fn routes() -> Router<crate::state::AppState> {\n    Router::new()\n        .route(\"/"@ + name + "\", get(handlers::index).post(handlers::create))\n        .route(\"/"@ + name + "/new\", get(handlers::new))\n        .route(\"/"@ + name + "/:id\", get(handlers::show).post(handlers::update))\n        .route(\"/"@ + name + "/:id/edit\", get(handlers::edit))\n        .route(\"/"@ + name + "/:id/delete\", post(handlers::delete))\n}\n"@;
    assert(t =~= ("use axum::{routing::{get, post}, Router};\nuse super::handlers;\n\npub fn routes() -> Router<crate::state::AppState> {\n    Router::new()\n        .route(\"/"@ + name + "\", get(handlers::index).post(handlers::create))\n        .route(\"/"@ + name + "/new\", get(handlers::new))\n        .route(\"/"@ + name + "/:id\", get(handlers::show).post(handlers::update))\n        .route(\"/"@ + name + "/:id/edit\", get(handlers::edit))\n        "@) + (route_head(name, "/:id/delete"@) + handler_call("post"@, "delete"@)) + ")\n}\n"@);
    lemma_contains_middle("use axum::{routing::{get, post}, Router};\nuse super::handlers;\n\npub fn routes() -> Router<crate::state::AppState> {\n    Router::new()\n        .route(\"/"@ + name + "\", get(handlers::index).post(handlers::create))\n        .route(\"/"@ + name + "/new\", get(handlers::new))\n        .route(\"/"@ + name + "/:id\", get(handlers::show).post(handlers::update))\n        .route(\"/"@ + name + "/:id/edit\", get(handlers::edit))\n        "@, route_head(name, "/:id/delete"@) + handler_call("post"@, "delete"@), ")\n}\n"@);
    let cur = t;
    assert(cur == routes_text(name, true, false));
    }
    {
    assert("use crate::{error::AppResult, view::View};\nuse axum::{extract::Path, response::IntoResponse};\nuse serde::Deserialize;\nuse serde_json::json;\n\n#[derive(Debug, Deserialize)]\npub struct CreateInput {\n    pub csrf_token: String,\n    // TODO: add fields\n}\n\n#[derive(Debug, Deserialize)]\npub struct UpdateInput {\n    pub csrf_token: String,\n    // TODO: add fields\n}\n\npub async fn index(view: View) -> AppResult<impl IntoResponse> {\n    view.render(\"pages/"@ =~= "use crate::{error::AppResult, view::View};\nuse axum::{extract::Path, response::IntoResponse};\nuse serde::Deserialize;\nuse serde_json::json;\n\n#[derive(Debug, Deserialize)]\npub struct CreateInput {\n    pub csrf_token: String,\n    // TODO: add fields\n}\n\n#[derive(Debug, Deserialize)]\npub struct UpdateInput {\n    pub csrf_token: String,\n    // TODO: add fields\n}\n\n"@ + ("pub async fn "@ + "index"@ + "("@) + "view: View) -> AppResult<impl IntoResponse> {\n    view.render(\"pages/"@);
    lemma_contains_middle("use crate::{error::AppResult, view::View};\nuse axum::{extract::Path, response::IntoResponse};\nuse serde::Deserialize;\nuse serde_json::json;\n\n#[derive(Debug, Deserialize)]\npub struct CreateInput {\n    pub csrf_token: String,\n    // TODO: add fields\n}\n\n#[derive(Debug, Deserialize)]\npub struct UpdateInput {\n    pub csrf_token: String,\n    // TODO: add fields\n}\n\n"@, "pub async fn "@ + "index"@ + "("@, "view: View) -> AppResult<impl IntoResponse> {\n    view.render(\"pages/"@);
    let cur = "use crate::{error::AppResult, view::View};\nuse axum::{extract::Path, response::IntoResponse};\nuse serde::Deserialize;\nuse serde_json::json;\n\n#[derive(Debug, Deserialize)]\npub struct CreateInput {\n    pub csrf_token: String,\n    // TODO: add fields\n}\n\n#[derive(Debug, Deserialize)]\npub struct UpdateInput {\n    pub csrf_token: String,\n    // TODO: add fields\n}\n\npub async fn index(view: View) -> AppResult<impl IntoResponse> {\n    view.render(\"pages/"@;
    lemma_contains_extend(cur, name, "pub async fn "@ + "index"@ + "("@);
    let cur = cur + name;
    lemma_contains_extend(cur, "/index.html\", json!({\"items\": []}))\n}\n\npub async fn new(view: View) -> AppResult<impl IntoResponse> {\n    view.render(\"pages/"@, "pub async fn "@ + "index"@ + "("@);
    let cur = cur + "/index.html\", json!({\"items\": []}))\n}\n\npub async fn new(view: View) -> AppResult<impl IntoResponse> {\n    view.render(\"pages/"@;
    lemma_contains_extend(cur, name, "pub async fn "@ + "index"@ + "("@);
    let cur = cur + name;
    lemma_contains_extend(cur, "/new.html\", json!({}))\n}\n\npub async fn show(Path(id): Path<i64>, view: View) -> AppResult<impl IntoResponse> {\n    view.render(\"pages/"@, "pub async fn "@ + "index"@ + "("@);
    let cur = cur + "/new.html\", json!({}))\n}\n\npub async fn show(Path(id): Path<i64>, view: View) -> AppResult<impl IntoResponse> {\n    view.render(\"pages/"@;
    lemma_contains_extend(cur, name, "pub async fn "@ + "index"@ + "("@);
    let cur = cur + name;
    lemma_contains_extend(cur, "/show.html\", json!({\"id\": id}))\n}\n\npub async fn edit(Path(id): Path<i64>, view: View) -> AppResult<impl IntoResponse> {\n    view.render(\"pages/"@, "pub async fn "@ + "index"@ + "("@);
    let cur = cur + "/show.html\", json!({\"id\": id}))\n}\n\npub async fn edit(Path(id): Path<i64>, view: View) -> AppResult<impl IntoResponse> {\n    view.render(\"pages/"@;
    lemma_contains_extend(cur, name, "pub async fn "@ + "index"@ + "("@);
    let cur = cur + name;
    lemma_contains_extend(cur, "/edit.html\", json!({\"id\": id}))\n}\n\npub async fn create() -> AppResult<impl IntoResponse> {\n    Ok(axum::response::Redirect::to(\"/"@, "pub async fn "@ + "index"@ + "("@);
    let cur = cur + "/edit.html\", json!({\"id\": id}))\n}\n\npub async fn create() -> AppResult<impl IntoResponse> {\n    Ok(axum::response::Redirect::to(\"/"@;
    lemma_contains_extend(cur, name, "pub async fn "@ + "index"@ + "("@);
    let cur = cur + name;
    lemma_contains_extend(cur, "\"))\n}\n\npub async fn update(Path(_id): Path<i64>) -> AppResult<impl IntoResponse> {\n    Ok(axum::response::Redirect::to(\"/"@, "pub async fn "@ + "index"@ + "("@);
    let cur = cur + "\"))\n}\n\npub async fn update(Path(_id): Path<i64>) -> AppResult<impl IntoResponse> {\n    Ok(axum::response::Redirect::to(\"/"@;
    lemma_contains_extend(cur, name, "pub async fn "@ + "index"@ + "("@);
    let cur = cur + name;
    lemma_contains_extend(cur, "\"))\n}\n\npub async fn delete(Path(_id): Path<i64>) -> AppResult<impl IntoResponse> {\n    Ok(axum::response::Redirect::to(\"/"@, "pub async fn "@ + "index"@ + "("@);
    let cur = cur + "\"))\n}\n\npub async fn delete(Path(_id): Path<i64>) -> AppResult<impl IntoResponse> {\n    Ok(axum::response::Redirect::to(\"/"@;
    lemma_contains_extend(cur, name, "pub async fn "@ + "index"@ + "("@);
    let cur = cur + name;
    lemma_contains_extend(cur, "\"))\n}\n"@, "pub async fn "@ + "index"@ + "("@);
    let cur = cur + "\"))\n}\n"@;
    assert(cur == handlers_text(name, true));
    }
    {
    assert("/index.html\", json!({\"items\": []}))\n}\n\npub async fn new(view: View) -> AppResult<impl IntoResponse> {\n    view.render(\"pages/"@ =~= "/index.html\", json!({\"items\": []}))\n}\n\n"@ + ("pub async fn "@ + "new"@ + "("@) + "view: View) -> AppResult<impl IntoResponse> {\n    view.render(\"pages/"@);
    lemma_contains_middle("/index.html\", json!({\"items\": []}))\n}\n\n"@, "pub async fn "@ + "new"@ + "("@, "view: View) -> AppResult<impl IntoResponse> {\n    view.render(\"pages/"@);
    lemma_contains_extend("/index.html\", json!({\"items\": []}))\n}\n\npub async fn new(view: View) -> AppResult<impl IntoResponse> {\n    view.render(\"pages/"@, "use crate::{error::AppResult, view::View};\nuse axum::{extract::Path, response::IntoResponse};\nuse serde::Deserialize;\nuse serde_json::json;\n\n#[derive(Debug, Deserialize)]\npub struct CreateInput {\n    pub csrf_token: String,\n    // TODO: add fields\n}\n\n#[derive(Debug, Deserialize)]\npub struct UpdateInput {\n    pub csrf_token: String,\n    // TODO: add fields\n}\n\npub async fn index(view: View) -> AppResult<impl IntoResponse> {\n    view.render(\"pages/"@ + name, "pub async fn "@ + "new"@ + "("@);
    let cur = "use crate::{error::AppResult, view::View};\nuse axum::{extract::Path, response::IntoResponse};\nuse serde::Deserialize;\nuse serde_json::json;\n\n#[derive(Debug, Deserialize)]\npub struct CreateInput {\n    pub csrf_token: String,\n    // TODO: add fields\n}\n\n#[derive(Debug, Deserialize)]\npub struct UpdateInput {\n    pub csrf_token: String,\n    // TODO: add fields\n}\n\npub async fn index(view: View) -> AppResult<impl IntoResponse> {\n    view.render(\"pages/"@ + name + "/index.html\", json!({\"items\": []}))\n}\n\npub async fn new(view: View) -> AppResult<impl IntoResponse> {\n    view.render(\"pages/"@;
    lemma_contains_extend(cur, name, "pub async fn "@ + "new"@ + "("@);
    let cur = cur + name;
    lemma_contains_extend(cur, "/new.html\", json!({}))\n}\n\npub async fn show(Path(id): Path<i64>, view: View) -> AppResult<impl IntoResponse> {\n    view.render(\"pages/"@, "pub async fn "@ + "new"@ + "("@);
    let cur = cur + "/new.html\", json!({}))\n}\n\npub async fn show(Path(id): Path<i64>, view: View) -> AppResult<impl IntoResponse> {\n    view.render(\"pages/"@;
    lemma_contains_extend(cur, name, "pub async fn "@ + "new"@ + "("@);
    let cur = cur + name;
    lemma_contains_extend(cur, "/show.html\", json!({\"id\": id}))\n}\n\npub async fn edit(Path(id): Path<i64>, view: View) -> AppResult<impl IntoResponse> {\n    view.render(\"pages/"@, "pub async fn "@ + "new"@ + "("@);
    let cur = cur + "/show.html\", json!({\"id\": id}))\n}\n\npub async fn edit(Path(id): Path<i64>, view: View) -> AppResult<impl IntoResponse> {\n    view.render(\"pages/"@;
    lemma_contains_extend(cur, name, "pub async fn "@ + "new"@ + "("@);
    let cur = cur + name;
    lemma_contains_extend(cur, "/edit.html\", json!({\"id\": id}))\n}\n\npub async fn create() -> AppResult<impl IntoResponse> {\n    Ok(axum::response::Redirect::to(\"/"@, "pub async fn "@ + "new"@ + "("@);
    let cur = cur + "/edit.html\", json!({\"id\": id}))\n}\n\npub async fn create() -> AppResult<impl IntoResponse> {\n    Ok(axum::response::Redirect::to(\"/"@;
    lemma_contains_extend(cur, name, "pub async fn "@ + "new"@ + "("@);
    let cur = cur + name;
    lemma_contains_extend(cur, "\"))\n}\n\npub async fn update(Path(_id): Path<i64>) -> AppResult<impl IntoResponse> {\n    Ok(axum::response::Redirect::to(\"/"@, "pub async fn "@ + "new"@ + "("@);
    let cur = cur + "\"))\n}\n\npub async fn update(Path(_id): Path<i64>) -> AppResult<impl IntoResponse> {\n    Ok(axum::response::Redirect::to(\"/"@;
    lemma_contains_extend(cur, name, "pub async fn "@ + "new"@ + "("@);
    let cur = cur + name;
    lemma_contains_extend(cur, "\"))\n}\n\npub async fn delete(Path(_id): Path<i64>) -> AppResult<impl IntoResponse> {\n    Ok(axum::response::Redirect::to(\"/"@, "pub async fn "@ + "new"@ + "("@);
    let cur = cur + "\"))\n}\n\npub async fn delete(Path(_id): Path<i64>) -> AppResult<impl IntoResponse> {\n    Ok(axum::response::Redirect::to(\"/"@;
    lemma_contains_extend(cur, name, "pub async fn "@ + "new"@ + "("@);
    let cur = cur + name;
    lemma_contains_extend(cur, "\"))\n}\n"@, "pub async fn "@ + "new"@ + "("@);
    let cur = cur + "\"))\n}\n"@;
    assert(cur == handlers_text(name, true));
    }
    {
    assert("/new.html\", json!({}))\n}\n\npub async fn show(Path(id): Path<i64>, view: View) -> AppResult<impl IntoResponse> {\n    view.render(\"pages/"@ =~= "/new.html\", json!({}))\n}\n\n"@ + ("pub async fn "@ + "show"@ + "("@) + "Path(id): Path<i64>, view: View) -> AppResult<impl IntoResponse> {\n    view.render(\"pages/"@);
    lemma_contains_middle("/new.html\", json!({}))\n}\n\n"@, "pub async fn "@ + "show"@ + "("@, "Path(id): Path<i64>, view: View) -> AppResult<impl IntoResponse> {\n    view.render(\"pages/"@);
    lemma_contains_extend("/new.html\", json!({}))\n}\n\npub async fn show(Path(id): Path<i64>, view: View) -> AppResult<impl IntoResponse> {\n    view.render(\"pages/"@, "use crate::{error::AppResult, view::View};\nuse axum::{extract::Path, response::IntoResponse};\nuse serde::Deserialize;\nuse serde_json::json;\n\n#[derive(Debug, Deserialize)]\npub struct CreateInput {\n    pub csrf_token: String,\n    // TODO: add fields\n}\n\n#[derive(Debug, Deserialize)]\npub struct UpdateInput {\n    pub csrf_token: String,\n    // TODO: add fields\n}\n\npub async fn index(view: View) -> AppResult<impl IntoResponse> {\n    view.render(\"pages/"@ + name + "/index.html\", json!({\"items\": []}))\n}\n\npub async fn new(view: View) -> AppResult<impl IntoResponse> {\n    view.render(\"pages/"@ + name, "pub async fn "@ + "show"@ + "("@);
    let cur = "use crate::{error::AppResult, view::View};\nuse axum::{extract::Path, response::IntoResponse};\nuse serde::Deserialize;\nuse serde_json::json;\n\n#[derive(Debug, Deserialize)]\npub struct CreateInput {\n    pub csrf_token: String,\n    // TODO: add fields\n}\n\n#[derive(Debug, Deserialize)]\npub struct UpdateInput {\n    pub csrf_token: String,\n    // TODO: add fields\n}\n\npub async fn index(view: View) -> AppResult<impl IntoResponse> {\n    view.render(\"pages/"@ + name + "/index.html\", json!({\"items\": []}))\n}\n\npub async fn new(view: View) -> AppResult<impl IntoResponse> {\n    view.render(\"pages/"@ + name + "/new.html\", json!({}))\n}\n\npub async fn show(Path(id): Path<i64>, view: View) -> AppResult<impl IntoResponse> {\n    view.render(\"pages/"@;
    lemma_contains_extend(cur, name, "pub async fn "@ + "show"@ + "("@);
    let cur = cur + name;
    lemma_contains_extend(cur, "/show.html\", json!({\"id\": id}))\n}\n\npub async fn edit(Path(id): Path<i64>, view: View) -> AppResult<impl IntoResponse> {\n    view.render(\"pages/"@, "pub async fn "@ + "show"@ + "("@);
    let cur = cur + "/show.html\", json!({\"id\": id}))\n}\n\npub async fn edit(Path(id): Path<i64>, view: View) -> AppResult<impl IntoResponse> {\n    view.render(\"pages/"@;
    lemma_contains_extend(cur, name, "pub async fn "@ + "show"@ + "("@);
    let cur = cur + name;
    lemma_contains_extend(cur, "/edit.html\", json!({\"id\": id}))\n}\n\npub async fn create() -> AppResult<impl IntoResponse> {\n    Ok(axum::response::Redirect::to(\"/"@, "pub async fn "@ + "show"@ + "("@);
    let cur = cur + "/edit.html\", json!({\"id\": id}))\n}\n\npub async fn create() -> AppResult<impl IntoResponse> {\n    Ok(axum::response::Redirect::to(\"/"@;
    lemma_contains_extend(cur, name, "pub async fn "@ + "show"@ + "("@);
    let cur = cur + name;
    lemma_contains_extend(cur, "\"))\n}\n\npub async fn update(Path(_id): Path<i64>) -> AppResult<impl IntoResponse> {\n    Ok(axum::response::Redirect::to(\"/"@, "pub async fn "@ + "show"@ + "("@);
    let cur = cur + "\"))\n}\n\npub async fn update(Path(_id): Path<i64>) -> AppResult<impl IntoResponse> {\n    Ok(axum::response::Redirect::to(\"/"@;
    lemma_contains_extend(cur, name, "pub async fn "@ + "show"@ + "("@);
    let cur = cur + name;
    lemma_contains_extend(cur, "\"))\n}\n\npub async fn delete(Path(_id): Path<i64>) -> AppResult<impl IntoResponse> {\n    Ok(axum::response::Redirect::to(\"/"@, "pub async fn "@ + "show"@ + "("@);
    let cur = cur + "\"))\n}\n\npub async fn delete(Path(_id): Path<i64>) -> AppResult<impl IntoResponse> {\n    Ok(axum::response::Redirect::to(\"/"@;
    lemma_contains_extend(cur, name, "pub async fn "@ + "show"@ + "("@);
    let cur = cur + name;
    lemma_contains_extend(cur, "\"))\n}\n"@, "pub async fn "@ + "show"@ + "("@);
    let cur = cur + "\"))\n}\n"@;
    assert(cur == handlers_text(name, true));
    }
    {
    assert("/show.html\", json!({\"id\": id}))\n}\n\npub async fn edit(Path(id): Path<i64>, view: View) -> AppResult<impl IntoResponse> {\n    view.render(\"pages/"@ =~= "/show.html\", json!({\"id\": id}))\n}\n\n"@ + ("pub async fn "@ + "edit"@ + "("@) + "Path(id): Path<i64>, view: View) -> AppResult<impl IntoResponse> {\n    view.render(\"pages/"@);
    lemma_contains_middle("/show.html\", json!({\"id\": id}))\n}\n\n"@, "pub async fn "@ + "edit"@ + "("@, "Path(id): Path<i64>, view: View) -> AppResult<impl IntoResponse> {\n    view.render(\"pages/"@);
    lemma_contains_extend("/show.html\", json!({\"id\": id}))\n}\n\npub async fn edit(Path(id): Path<i64>, view: View) -> AppResult<impl IntoResponse> {\n    view.render(\"pages/"@, "use crate::{error::AppResult, view::View};\nuse axum::{extract::Path, response::IntoResponse};\nuse serde::Deserialize;\nuse serde_json::json;\n\n#[derive(Debug, Deserialize)]\npub struct CreateInput {\n    pub csrf_token: String,\n    // TODO: add fields\n}\n\n#[derive(Debug, Deserialize)]\npub struct UpdateInput {\n    pub csrf_token: String,\n    // TODO: add fields\n}\n\npub async fn index(view: View) -> AppResult<impl IntoResponse> {\n    view.render(\"pages/"@ + name + "/index.html\", json!({\"items\": []}))\n}\n\npub async fn new(view: View) -> AppResult<impl IntoResponse> {\n    view.render(\"pages/"@ + name + "/new.html\", json!({}))\n}\n\npub async fn show(Path(id): Path<i64>, view: View) -> AppResult<impl IntoResponse> {\n    view.render(\"pages/"@ + name, "pub async fn "@ + "edit"@ + "("@);
    let cur = "use crate::{error::AppResult, view::View};\nuse axum::{extract::Path, response::IntoResponse};\nuse serde::Deserialize;\nuse serde_json::json;\n\n#[derive(Debug, Deserialize)]\npub struct CreateInput {\n    pub csrf_token: String,\n    // TODO: add fields\n}\n\n#[derive(Debug, Deserialize)]\npub struct UpdateInput {\n    pub csrf_token: String,\n    // TODO: add fields\n}\n\npub async fn index(view: View) -> AppResult<impl IntoResponse> {\n    view.render(\"pages/"@ + name + "/index.html\", json!({\"items\": []}))\n}\n\npub async fn new(view: View) -> AppResult<impl IntoResponse> {\n    view.render(\"pages/"@ + name + "/new.html\", json!({}))\n}\n\npub async fn show(Path(id): Path<i64>, view: View) -> AppResult<impl IntoResponse> {\n    view.render(\"pages/"@ + name + "/show.html\", json!({\"id\": id}))\n}\n\npub async fn edit(Path(id): Path<i64>, view: View) -> AppResult<impl IntoResponse> {\n    view.render(\"pages/"@;
    lemma_contains_extend(cur, name, "pub async fn "@ + "edit"@ + "("@);
    let cur = cur + name;
    lemma_contains_extend(cur, "/edit.html\", json!({\"id\": id}))\n}\n\npub async fn create() -> AppResult<impl IntoResponse> {\n    Ok(axum::response::Redirect::to(\"/"@, "pub async fn "@ + "edit"@ + "("@);
    let cur = cur + "/edit.html\", json!({\"id\": id}))\n}\n\npub async fn create() -> AppResult<impl IntoResponse> {\n    Ok(axum::response::Redirect::to(\"/"@;
    lemma_contains_extend(cur, name, "pub async fn "@ + "edit"@ + "("@);
    let cur = cur + name;
    lemma_contains_extend(cur, "\"))\n}\n\npub async fn update(Path(_id): Path<i64>) -> AppResult<impl IntoResponse> {\n    Ok(axum::response::Redirect::to(\"/"@, "pub async fn "@ + "edit"@ + "("@);
    let cur = cur + "\"))\n}\n\npub async fn update(Path(_id): Path<i64>) -> AppResult<impl IntoResponse> {\n    Ok(axum::response::Redirect::to(\"/"@;
    lemma_contains_extend(cur, name, "pub async fn "@ + "edit"@ + "("@);
    let cur = cur + name;
    lemma_contains_extend(cur, "\"))\n}\n\npub async fn delete(Path(_id): Path<i64>) -> AppResult<impl IntoResponse> {\n    Ok(axum::response::Redirect::to(\"/"@, "pub async fn "@ + "edit"@ + "("@);
    let cur = cur + "\"))\n}\n\npub async fn delete(Path(_id): Path<i64>) -> AppResult<impl IntoResponse> {\n    Ok(axum::response::Redirect::to(\"/"@;
    lemma_contains_extend(cur, name, "pub async fn "@ + "edit"@ + "("@);
    let cur = cur + name;
    lemma_contains_extend(cur, "\"))\n}\n"@, "pub async fn "@ + "edit"@ + "("@);
    let cur = cur + "\"))\n}\n"@;
    assert(cur == handlers_text(name, true));
    }
    {
    assert("/edit.html\", json!({\"id\": id}))\n}\n\npub async fn create() -> AppResult<impl IntoResponse> {\n    Ok(axum::response::Redirect::to(\"/"@ =~= "/edit.html\", json!({\"id\": id}))\n}\n\n"@ + ("pub async fn "@ + "create"@ + "("@) + ") -> AppResult<impl IntoResponse> {\n    Ok(axum::response::Redirect::to(\"/"@);
    lemma_contains_middle("/edit.html\", json!({\"id\": id}))\n}\n\n"@, "pub async fn "@ + "create"@ + "("@, ") -> AppResult<impl IntoResponse> {\n    Ok(axum::response::Redirect::to(\"/"@);
    lemma_contains_extend("/edit.html\", json!({\"id\": id}))\n}\n\npub async fn create() -> AppResult<impl IntoResponse> {\n    Ok(axum::response::Redirect::to(\"/"@, "use crate::{error::AppResult, view::View};\nuse axum::{extract::Path, response::IntoResponse};\nuse serde::Deserialize;\nuse serde_json::json;\n\n#[derive(Debug, Deserialize)]\npub struct CreateInput {\n    pub csrf_token: String,\n    // TODO: add fields\n}\n\n#[derive(Debug, Deserialize)]\npub struct UpdateInput {\n    pub csrf_token: String,\n    // TODO: add fields\n}\n\npub async fn index(view: View) -> AppResult<impl IntoResponse> {\n    view.render(\"pages/"@ + name + "/index.html\", json!({\"items\": []}))\n}\n\npub async fn new(view: View) -> AppResult<impl IntoResponse> {\n    view.render(\"pages/"@ + name + "/new.html\", json!({}))\n}\n\npub async fn show(Path(id): Path<i64>, view: View) -> AppResult<impl IntoResponse> {\n    view.render(\"pages/"@ + name + "/show.html\", json!({\"id\": id}))\n}\n\npub async fn edit(Path(id): Path<i64>, view: View) -> AppResult<impl IntoResponse> {\n    view.render(\"pages/"@ + name, "pub async fn "@ + "create"@ + "("@);
    let cur = "use crate::{error::AppResult, view::View};\nuse axum::{extract::Path, response::IntoResponse};\nuse serde::Deserialize;\nuse serde_json::json;\n\n#[derive(Debug, Deserialize)]\npub struct CreateInput {\n    pub csrf_token: String,\n    // TODO: add fields\n}\n\n#[derive(Debug, Deserialize)]\npub struct UpdateInput {\n    pub csrf_token: String,\n    // TODO: add fields\n}\n\npub async fn index(view: View) -> AppResult<impl IntoResponse> {\n    view.render(\"pages/"@ + name + "/index.html\", json!({\"items\": []}))\n}\n\npub async fn new(view: View) -> AppResult<impl IntoResponse> {\n    view.render(\"pages/"@ + name + "/new.html\", json!({}))\n}\n\npub async fn show(Path(id): Path<i64>, view: View) -> AppResult<impl IntoResponse> {\n    view.render(\"pages/"@ + name + "/show.html\", json!({\"id\": id}))\n}\n\npub async fn edit(Path(id): Path<i64>, view: View) -> AppResult<impl IntoResponse> {\n    view.render(\"pages/"@ + name + "/edit.html\", json!({\"id\": id}))\n}\n\npub async fn create() -> AppResult<impl IntoResponse> {\n    Ok(axum::response::Redirect::to(\"/"@;
    lemma_contains_extend(cur, name, "pub async fn "@ + "create"@ + "("@);
    let cur = cur + name;
    lemma_contains_extend(cur, "\"))\n}\n\npub async fn update(Path(_id): Path<i64>) -> AppResult<impl IntoResponse> {\n    Ok(axum::response::Redirect::to(\"/"@, "pub async fn "@ + "create"@ + "("@);
    let cur = cur + "\"))\n}\n\npub async fn update(Path(_id): Path<i64>) -> AppResult<impl IntoResponse> {\n    Ok(axum::response::Redirect::to(\"/"@;
    lemma_contains_extend(cur, name, "pub async fn "@ + "create"@ + "("@);
    let cur = cur + name;
    lemma_contains_extend(cur, "\"))\n}\n\npub async fn delete(Path(_id): Path<i64>) -> AppResult<impl IntoResponse> {\n    Ok(axum::response::Redirect::to(\"/"@, "pub async fn "@ + "create"@ + "("@);
    let cur = cur + "\"))\n}\n\npub async fn delete(Path(_id): Path<i64>) -> AppResult<impl IntoResponse> {\n    Ok(axum::response::Redirect::to(\"/"@;
    lemma_contains_extend(cur, name, "pub async fn "@ + "create"@ + "("@);
    let cur = cur + name;
    lemma_contains_extend(cur, "\"))\n}\n"@, "pub async fn "@ + "create"@ + "("@);
    let cur = cur + "\"))\n}\n"@;
    assert(cur == handlers_text(name, true));
    }
    {
    assert("\"))\n}\n\npub async fn update(Path(_id): Path<i64>) -> AppResult<impl IntoResponse> {\n    Ok(axum::response::Redirect::to(\"/"@ =~= "\"))\n}\n\n"@ + ("pub async fn "@ + "update"@ + "("@) + "Path(_id): Path<i64>) -> AppResult<impl IntoResponse> {\n    Ok(axum::response::Redirect::to(\"/"@);
    lemma_contains_middle("\"))\n}\n\n"@, "pub async fn "@ + "update"@ + "("@, "Path(_id): Path<i64>) -> AppResult<impl IntoResponse> {\n    Ok(axum::response::Redirect::to(\"/"@);
    lemma_contains_extend("\"))\n}\n\npub async fn update(Path(_id): Path<i64>) -> AppResult<impl IntoResponse> {\n    Ok(axum::response::Redirect::to(\"/"@, "use crate::{error::AppResult, view::View};\nuse axum::{extract::Path, response::IntoResponse};\nuse serde::Deserialize;\nuse serde_json::json;\n\n#[derive(Debug, Deserialize)]\npub struct CreateInput {\n    pub csrf_token: String,\n    // TODO: add fields\n}\n\n#[derive(Debug, Deserialize)]\npub struct UpdateInput {\n    pub csrf_token: String,\n    // TODO: add fields\n}\n\npub async fn index(view: View) -> AppResult<impl IntoResponse> {\n    view.render(\"pages/"@ + name + "/index.html\", json!({\"items\": []}))\n}\n\npub async fn new(view: View) -> AppResult<impl IntoResponse> {\n    view.render(\"pages/"@ + name + "/new.html\", json!({}))\n}\n\npub async fn show(Path(id): Path<i64>, view: View) -> AppResult<impl IntoResponse> {\n    view.render(\"pages/"@ + name + "/show.html\", json!({\"id\": id}))\n}\n\npub async fn edit(Path(id): Path<i64>, view: View) -> AppResult<impl IntoResponse> {\n    view.render(\"pages/"@ + name + "/edit.html\", json!({\"id\": id}))\n}\n\npub async fn create() -> AppResult<impl IntoResponse> {\n    Ok(axum::response::Redirect::to(\"/"@ + name, "pub async fn "@ + "update"@ + "("@);
    let cur = "use crate::{error::AppResult, view::View};\nuse axum::{extract::Path, response::IntoResponse};\nuse serde::Deserialize;\nuse serde_json::json;\n\n#[derive(Debug, Deserialize)]\npub struct CreateInput {\n    pub csrf_token: String,\n    // TODO: add fields\n}\n\n#[derive(Debug, Deserialize)]\npub struct UpdateInput {\n    pub csrf_token: String,\n    // TODO: add fields\n}\n\npub async fn index(view: View) -> AppResult<impl IntoResponse> {\n    view.render(\"pages/"@ + name + "/index.html\", json!({\"items\": []}))\n}\n\npub async fn new(view: View) -> AppResult<impl IntoResponse> {\n    view.render(\"pages/"@ + name + "/new.html\", json!({}))\n}\n\npub async fn show(Path(id): Path<i64>, view: View) -> AppResult<impl IntoResponse> {\n    view.render(\"pages/"@ + name + "/show.html\", json!({\"id\": id}))\n}\n\npub async fn edit(Path(id): Path<i64>, view: View) -> AppResult<impl IntoResponse> {\n    view.render(\"pages/"@ + name + "/edit.html\", json!({\"id\": id}))\n}\n\npub async fn create() -> AppResult<impl IntoResponse> {\n    Ok(axum::response::Redirect::to(\"/"@ + name + "\"))\n}\n\npub async fn update(Path(_id): Path<i64>) -> AppResult<impl IntoResponse> {\n    Ok(axum::response::Redirect::to(\"/"@;
    lemma_contains_extend(cur, name, "pub async fn "@ + "update"@ + "("@);
    let cur = cur + name;
    lemma_contains_extend(cur, "\"))\n}\n\npub async fn delete(Path(_id): Path<i64>) -> AppResult<impl IntoResponse> {\n    Ok(axum::response::Redirect::to(\"/"@, "pub async fn "@ + "update"@ + "("@);
    let cur = cur + "\"))\n}\n\npub async fn delete(Path(_id): Path<i64>) -> AppResult<impl IntoResponse> {\n    Ok(axum::response::Redirect::to(\"/"@;
    lemma_contains_extend(cur, name, "pub async fn "@ + "update"@ + "("@);
    let cur = cur + name;
    lemma_contains_extend(cur, "\"))\n}\n"@, "pub async fn "@ + "update"@ + "("@);
    let cur = cur + "\"))\n}\n"@;
    assert(cur == handlers_text(name, true));
    }
    {
    assert("\"))\n}\n\npub async fn delete(Path(_id): Path<i64>) -> AppResult<impl IntoResponse> {\n    Ok(axum::response::Redirect::to(\"/"@ =~= "\"))\n}\n\n"@ + ("pub async fn "@ + "delete"@ + "("@) + "Path(_id): Path<i64>) -> AppResult<impl IntoResponse> {\n    Ok(axum::response::Redirect::to(\"/"@);
    lemma_contains_middle("\"))\n}\n\n"@, "pub async fn "@ + "delete"@ + "("@, "Path(_id): Path<i64>) -> AppResult<impl IntoResponse> {\n    Ok(axum::response::Redirect::to(\"/"@);
    lemma_contains_extend("\"))\n}\n\npub async fn delete(Path(_id): Path<i64>) -> AppResult<impl IntoResponse> {\n    Ok(axum::response::Redirect::to(\"/"@, "use crate::{error::AppResult, view::View};\nuse axum::{extract::Path, response::IntoResponse};\nuse serde::Deserialize;\nuse serde_json::json;\n\n#[derive(Debug, Deserialize)]\npub struct CreateInput {\n    pub csrf_token: String,\n    // TODO: add fields\n}\n\n#[derive(Debug, Deserialize)]\npub struct UpdateInput {\n    pub csrf_token: String,\n    // TODO: add fields\n}\n\npub async fn index(view: View) -> AppResult<impl IntoResponse> {\n    view.render(\"pages/"@ + name + "/index.html\", json!({\"items\": []}))\n}\n\npub async fn new(view: View) -> AppResult<impl IntoResponse> {\n    view.render(\"pages/"@ + name + "/new.html\", json!({}))\n}\n\npub async fn show(Path(id): Path<i64>, view: View) -> AppResult<impl IntoResponse> {\n    view.render(\"pages/"@ + name + "/show.html\", json!({\"id\": id}))\n}\n\npub async fn edit(Path(id): Path<i64>, view: View) -> AppResult<impl IntoResponse> {\n    view.render(\"pages/"@ + name + "/edit.html\", json!({\"id\": id}))\n}\n\npub async fn create() -> AppResult<impl IntoResponse> {\n    Ok(axum::response::Redirect::to(\"/"@ + name + "\"))\n}\n\npub async fn update(Path(_id): Path<i64>) -> AppResult<impl IntoResponse> {\n    Ok(axum::response::Redirect::to(\"/"@ + name, "pub async fn "@ + "delete"@ + "("@);
    let cur = "use crate::{error::AppResult, view::View};\nuse axum::{extract::Path, response::IntoResponse};\nuse serde::Deserialize;\nuse serde_json::json;\n\n#[derive(Debug, Deserialize)]\npub struct CreateInput {\n    pub csrf_token: String,\n    // TODO: add fields\n}\n\n#[derive(Debug, Deserialize)]\npub struct UpdateInput {\n    pub csrf_token: String,\n    // TODO: add fields\n}\n\npub async fn index(view: View) -> AppResult<impl IntoResponse> {\n    view.render(\"pages/"@ + name + "/index.html\", json!({\"items\": []}))\n}\n\npub async fn new(view: View) -> AppResult<impl IntoResponse> {\n    view.render(\"pages/"@ + name + "/new.html\", json!({}))\n}\n\npub async fn show(Path(id): Path<i64>, view: View) -> AppResult<impl IntoResponse> {\n    view.render(\"pages/"@ + name + "/show.html\", json!({\"id\": id}))\n}\n\npub async fn edit(Path(id): Path<i64>, view: View) -> AppResult<impl IntoResponse> {\n    view.render(\"pages/"@ + name + "/edit.html\", json!({\"id\": id}))\n}\n\npub async fn create() -> AppResult<impl IntoResponse> {\n    Ok(axum::response::Redirect::to(\"/"@ + name + "\"))\n}\n\npub async fn update(Path(_id): Path<i64>) -> AppResult<impl IntoResponse> {\n    Ok(axum::response::Redirect::to(\"/"@ + name + "\"))\n}\n\npub async fn delete(Path(_id): Path<i64>) -> AppResult<impl IntoResponse> {\n    Ok(axum::response::Redirect::to(\"/"@;
    lemma_contains_extend(cur, name, "pub async fn "@ + "delete"@ + "("@);
    let cur = cur + name;
    lemma_contains_extend(cur, "\"))\n}\n"@, "pub async fn "@ + "delete"@ + "("@);
    let cur = cur + "\"))\n}\n"@;
    assert(cur == handlers_text(name, true));
    }
}

} // verus!
