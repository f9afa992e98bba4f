# linger

The verified core of Linger, a self-renaming web application template.

- `src/` is the library, checked by Verus: configuration layering, the CSRF
  double-submit check, token and password hashing, mail composition, the
  `init` renaming plan, and the domain generator (names, field parsing,
  source text and the plan of file changes), over a small verified string
  toolkit (`text`).
- `app/` is the program around it: command line, HTTP server (axum),
  SQLite storage (sqlx), templates (minijinja) and mail transport (lettre).
  It reads files and the environment, hands the library plain values and
  carries out the changes the library plans.
- `tests/` exercises the library with the real outside crates linked.
