//! The command line: its commands, and the renaming that `init` performs.
use rand::RngCore;
use vstd::prelude::*;
use crate::config::ServeOverrides;
use crate::generator::DomainArgs;
use crate::text::{
    ascii_lower_seq, ascii_upper_char, is_ascii_char, is_ascii_digit, is_ascii_lower, is_ascii_text,
    is_ascii_upper, ascii_alnum, chars_of, hex_lower, is_ascii_alnum, push_hex, push_range, push_str, replace_all,
    replaced, slice_of_all, split_char, split_on, string_of, trim, trim_both, views, TrimClass,
};

verus! {

/// The parsed command line.
pub struct Cli {
    pub command: Command,
}

/// A subcommand of the command line.
pub enum Command {
    Init(InitArgs),
    Serve(ServeOverrides),
    Db { command: DbCommand },
    Generate { command: GenerateCommand },
    Check { command: CheckCommand },
    Test { command: TestCommand },
}

pub enum DbCommand {
    Migrate,
}

pub enum GenerateCommand {
    Domain(DomainArgs),
}

pub enum CheckCommand {
    Config,
    Templates,
}

pub enum TestCommand {
    Email { to: String },
}

/// The arguments of `init`.
pub struct InitArgs {
    pub name: Option<String>,
    pub force: bool,
    pub yes: bool,
}

// ---------------------------------------------------------------------------
// Package and application names
// ---------------------------------------------------------------------------
/// What `str::to_lowercase` of std returns for `s` (Unicode lowercase
/// mapping, which may change the number of characters).
pub uninterp spec fn unicode_lowercase(s: Seq<char>) -> Seq<char>;

/// `str::to_lowercase` of std: the lowercase equivalent of `s`, so no ASCII
/// capital is left in it; on ASCII text it maps `A`-`Z` to `a`-`z` and keeps
/// every other character.
#[verifier::external_body]
fn to_lowercase(s: &str) -> (r: String)
    ensures
        r@ == unicode_lowercase(s@),
        forall|i: int| 0 <= i < r@.len() ==> !is_ascii_upper(#[trigger] r@[i]),
        is_ascii_text(s@) ==> r@ == ascii_lower_seq(s@),
{
    s.to_lowercase()
}

/// What `char::to_uppercase` of std yields for `c` (one to three
/// characters).
pub uninterp spec fn unicode_uppercase(c: char) -> Seq<char>;

/// `char::to_uppercase` of std, collected into a string; on an ASCII
/// character it maps `a`-`z` to `A`-`Z` and keeps every other character.
#[verifier::external_body]
fn to_uppercase(c: char) -> (r: String)
    ensures
        r@ == unicode_uppercase(c),
        is_ascii_char(c) ==> r@ == seq![ascii_upper_char(c)],
{
    c.to_uppercase().collect::<String>()
}

/// Every character outside ASCII letters and digits replaced by `-`.
pub open spec fn dashed(s: Seq<char>) -> Seq<char> {
    s.map_values(|c: char|
        if is_ascii_alnum(c) {
            c
        } else {
            '-'
        })
}

/// The package name for an already lowercased name: characters outside
/// ASCII letters and digits become `-`, and `-` at either end is dropped.
pub open spec fn package_name(lower: Seq<char>) -> Seq<char> {
    trim_both(dashed(lower), TrimClass::Char('-'))
}

/// Whether `r` is a package name: ASCII lowercase letters, digits and `-`,
/// with no `-` at either end.
pub open spec fn is_package_name(r: Seq<char>) -> bool {
    &&& forall|i: int|
        0 <= i < r.len() ==> is_ascii_lower(#[trigger] r[i]) || is_ascii_digit(r[i]) || r[i] == '-'
    &&& r.len() > 0 ==> r[0] != '-' && r.last() != '-'
}

/// A package name is its own package name, so normalizing it again changes
/// nothing: it is ASCII text, ASCII lower-casing keeps it, and so does
/// `package_name`.
pub proof fn lemma_package_name_is_fixed(r: Seq<char>)
    requires
        is_package_name(r),
    ensures
        is_ascii_text(r),
        ascii_lower_seq(r) == r,
        package_name(r) == r,
{
    assert(ascii_lower_seq(r) =~= r);
    assert(dashed(r) =~= r);
}

/// The package name for an already lowercased name.
pub fn package_from_lowercase(lower: &str) -> (r: String)
    ensures
        r@ == package_name(lower@),
        forall|i: int| 0 <= i < r@.len() ==> is_ascii_alnum(#[trigger] r@[i]) || r@[i] == '-',
        r@.len() > 0 ==> r@[0] != '-' && r@.last() != '-',
        (forall|i: int| 0 <= i < lower@.len() ==> !is_ascii_upper(#[trigger] lower@[i]))
            ==> is_package_name(r@),
{
    let v = chars_of(lower);
    let mut d: Vec<char> = Vec::new();
    let mut i: usize = 0;
    while i < v.len()
        invariant
            i <= v@.len(),
            d@ == dashed(v@.take(i as int)),
        decreases v@.len() - i,
    {
        let c = v[i];
        d.push(
            if ascii_alnum(c) {
                c
            } else {
                '-'
            },
        );
        proof {
            assert(dashed(v@.take(i + 1)) =~= dashed(v@.take(i as int)).push(d@.last()));
        }
        i += 1;
    }
    proof {
        assert(v@.take(v@.len() as int) =~= v@);
    }
    let t = trim(&d, &TrimClass::Char('-'));
    proof {
        lemma_trim_shape(d@, TrimClass::Char('-'));
        if forall|i: int| 0 <= i < lower@.len() ==> !is_ascii_upper(#[trigger] lower@[i]) {
            let (a, b) = choose|a: int, b: int|
                0 <= a <= b <= d@.len() && trim_both(d@, TrimClass::Char('-')) == d@.subrange(a, b);
            assert forall|i: int| 0 <= i < t@.len() implies is_ascii_lower(#[trigger] t@[i])
                || is_ascii_digit(t@[i]) || t@[i] == '-' by {
                assert(t@[i] == d@[a + i]);
                assert(!is_ascii_upper(v@[a + i]));
            }
        }
    }
    string_of(&t)
}

proof fn lemma_trim_end_subrange(s: Seq<char>, class: TrimClass) -> (k: int)
    ensures
        0 <= k <= s.len(),
        crate::text::trim_end(s, class) == s.take(k),
        k > 0 ==> !class.holds(s[k - 1]),
    decreases s.len(),
{
    if s.len() > 0 && class.holds(s.last()) {
        let k = lemma_trim_end_subrange(s.drop_last(), class);
        assert(s.drop_last().take(k) =~= s.take(k));
        k
    } else {
        assert(s.take(s.len() as int) =~= s);
        s.len() as int
    }
}

proof fn lemma_trim_start_subrange(s: Seq<char>, class: TrimClass) -> (k: int)
    ensures
        0 <= k <= s.len(),
        crate::text::trim_start(s, class) == s.skip(k),
        k < s.len() ==> !class.holds(s[k]),
    decreases s.len(),
{
    if s.len() > 0 && class.holds(s[0]) {
        let k = lemma_trim_start_subrange(s.skip(1), class);
        assert(s.skip(1).skip(k) =~= s.skip(k + 1));
        k + 1
    } else {
        assert(s.skip(0) =~= s);
        0
    }
}

/// Trimming keeps a middle part of `s` that neither starts nor ends with a
/// character of the class.
pub proof fn lemma_trim_shape(s: Seq<char>, class: TrimClass)
    ensures
        exists|a: int, b: int| 0 <= a <= b <= s.len() && trim_both(s, class) == s.subrange(a, b),
        trim_both(s, class).len() > 0 ==> !class.holds(trim_both(s, class)[0]) && !class.holds(
            trim_both(s, class).last(),
        ),
{
    let e = crate::text::trim_end(s, class);
    let b = lemma_trim_end_subrange(s, class);
    let a = lemma_trim_start_subrange(e, class);
    let t = trim_both(s, class);
    assert(t == e.skip(a));
    assert(t =~= s.subrange(a, b));
    if t.len() > 0 {
        assert(t[0] == e[a]);
        assert(t.last() == e[b - 1]);
    }
}

/// The package name that `init` derives from a project name: lowercased,
/// with characters outside ASCII letters and digits turned into `-`, and no
/// `-` at either end.
pub fn normalize_package(s: &str) -> (r: String)
    ensures
        r@ == package_name(unicode_lowercase(s@)),
        is_package_name(r@),
        is_ascii_text(s@) ==> r@ == package_name(ascii_lower_seq(s@)),
        forall|i: int| 0 <= i < r@.len() ==> is_ascii_alnum(#[trigger] r@[i]) || r@[i] == '-',
        r@.len() > 0 ==> r@[0] != '-' && r@.last() != '-',
{
    let lower = to_lowercase(s);
    package_from_lowercase(lower.as_str())
}

/// `_` read as `-`.
pub open spec fn underscores_as_dashes(s: Seq<char>) -> Seq<char> {
    s.map_values(|c: char|
        if c == '_' {
            '-'
        } else {
            c
        })
}

/// The words of `s`: the non-empty pieces between `-` and `_`.
pub open spec fn words(s: Seq<char>) -> Seq<Seq<char>> {
    non_empty(split_char(underscores_as_dashes(s), '-'))
}

/// The non-empty pieces, in order.
pub open spec fn non_empty(ps: Seq<Seq<char>>) -> Seq<Seq<char>>
    decreases ps.len(),
{
    if ps.len() == 0 {
        ps
    } else if ps.last().len() == 0 {
        non_empty(ps.drop_last())
    } else {
        non_empty(ps.drop_last()).push(ps.last())
    }
}

/// A word without its first character.
pub open spec fn after_first(w: Seq<char>) -> Seq<char> {
    if w.len() == 0 {
        w
    } else {
        w.skip(1)
    }
}

/// The words joined by single spaces, each with its first character
/// replaced by the text in `firsts` at the same position.
pub open spec fn title_join(ws: Seq<Seq<char>>, firsts: Seq<Seq<char>>) -> Seq<char>
    decreases ws.len(),
{
    if ws.len() == 0 {
        Seq::<char>::empty()
    } else {
        let last = firsts[ws.len() - 1] + after_first(ws.last());
        if ws.len() == 1 {
            last
        } else {
            title_join(ws.drop_last(), firsts.take(ws.len() - 1)) + seq![' '] + last
        }
    }
}

/// The uppercase forms of the first characters of the words.
pub open spec fn uppercase_firsts(ws: Seq<Seq<char>>) -> Seq<Seq<char>> {
    ws.map_values(|w: Seq<char>| unicode_uppercase(w[0]))
}

/// The application name for a package name: its words, each with its first
/// character uppercased, joined by spaces (`"my-app"` becomes `"My App"`).
pub open spec fn title_text(s: Seq<char>) -> Seq<char> {
    title_join(words(s), uppercase_firsts(words(s)))
}

proof fn lemma_non_empty_pieces(ps: Seq<Seq<char>>)
    ensures
        forall|i: int| 0 <= i < non_empty(ps).len() ==> #[trigger] non_empty(ps)[i].len() > 0,
        non_empty(ps).len() <= ps.len(),
    decreases ps.len(),
{
    if ps.len() > 0 {
        lemma_non_empty_pieces(ps.drop_last());
    }
}

/// The words of a name: the non-empty pieces between `-` and `_`.
pub fn title_words(s: &str) -> (ws: Vec<Vec<char>>)
    ensures
        views(ws@) == words(s@),
        forall|i: int| 0 <= i < ws@.len() ==> #[trigger] ws@[i]@.len() > 0,
{
    let v = chars_of(s);
    let mut m: Vec<char> = Vec::new();
    let mut i: usize = 0;
    while i < v.len()
        invariant
            i <= v@.len(),
            m@ == underscores_as_dashes(v@.take(i as int)),
        decreases v@.len() - i,
    {
        let c = v[i];
        m.push(
            if c == '_' {
                '-'
            } else {
                c
            },
        );
        proof {
            assert(underscores_as_dashes(v@.take(i + 1)) =~= underscores_as_dashes(
                v@.take(i as int),
            ).push(m@.last()));
        }
        i += 1;
    }
    proof {
        assert(v@.take(v@.len() as int) =~= v@);
    }
    let pieces = split_on(&m, '-');
    let ghost ps = views(pieces@);
    let mut ws: Vec<Vec<char>> = Vec::new();
    let mut j: usize = 0;
    proof {
        assert(ps.take(0) =~= Seq::<Seq<char>>::empty());
        assert(views(ws@) =~= non_empty(ps.take(0)));
    }
    while j < pieces.len()
        invariant
            ps == views(pieces@),
            j <= pieces@.len(),
            views(ws@) == non_empty(ps.take(j as int)),
        decreases pieces@.len() - j,
    {
        proof {
            assert(ps.take(j + 1).drop_last() =~= ps.take(j as int));
            assert(ps.take(j + 1).last() == pieces@[j as int]@);
        }
        if pieces[j].len() > 0 {
            let w = slice_of_all(&pieces[j]);
            let ghost prev = ws@;
            ws.push(w);
            proof {
                assert(views(ws@) =~= views(prev).push(w@));
            }
        }
        j += 1;
    }
    proof {
        assert(ps.take(pieces@.len() as int) =~= ps);
        lemma_non_empty_pieces(ps);
        assert forall|i: int| 0 <= i < ws@.len() implies #[trigger] ws@[i]@.len() > 0 by {
            assert(views(ws@)[i] == ws@[i]@);
        }
    }
    ws
}

/// The words joined by spaces, each starting with the given text in place
/// of its first character.
pub fn join_title(ws: &Vec<Vec<char>>, firsts: &Vec<String>) -> (r: String)
    requires
        firsts@.len() == ws@.len(),
    ensures
        r@ == title_join(views(ws@), firsts@.map_values(|f: String| f@)),
{
    let ghost fv = firsts@.map_values(|f: String| f@);
    let ghost wv = views(ws@);
    let mut out = String::new();
    let mut j: usize = 0;
    proof {
        assert(wv.take(0) =~= Seq::<Seq<char>>::empty());
    }
    while j < ws.len()
        invariant
            fv == firsts@.map_values(|f: String| f@),
            wv == views(ws@),
            firsts@.len() == ws@.len(),
            j <= ws@.len(),
            out@ == title_join(wv.take(j as int), fv.take(j as int)),
        decreases ws@.len() - j,
    {
        let w = &ws[j];
        if j > 0 {
            crate::text::push_char(&mut out, ' ');
        }
        push_str(&mut out, firsts[j].as_str());
        if w.len() > 0 {
            push_range(&mut out, w, 1, w.len());
        }
        proof {
            let wt = wv.take(j + 1);
            let ft = fv.take(j + 1);
            assert(wt.drop_last() =~= wv.take(j as int));
            assert(ft.take(j as int) =~= fv.take(j as int));
            assert(wt.last() == w@);
            assert(ft[j as int] == firsts@[j as int]@);
            if w@.len() > 0 {
                assert(w@.subrange(1, w@.len() as int) =~= w@.skip(1));
            }
            assert(out@ =~= title_join(wt, ft));
        }
        j += 1;
    }
    proof {
        assert(wv.take(ws@.len() as int) =~= wv);
        assert(fv.take(ws@.len() as int) =~= fv);
    }
    out
}

/// The words with their first characters upper-cased as ASCII.
pub open spec fn ascii_capitals(ws: Seq<Seq<char>>) -> Seq<Seq<char>> {
    ws.map_values(|w: Seq<char>| seq![ascii_upper_char(w[0])])
}

/// The application name for a package name; where the words start with
/// ASCII characters, each first letter is capitalized as ASCII.
pub fn title(s: &str) -> (r: String)
    ensures
        r@ == title_text(s@),
        (forall|i: int| 0 <= i < words(s@).len() ==> is_ascii_char(#[trigger] words(s@)[i][0]))
            ==> r@ == title_join(words(s@), ascii_capitals(words(s@))),
{
    let ws = title_words(s);
    let mut firsts: Vec<String> = Vec::new();
    let mut j: usize = 0;
    while j < ws.len()
        invariant
            j <= ws@.len(),
            firsts@.len() == j,
            forall|i: int| 0 <= i < ws@.len() ==> #[trigger] ws@[i]@.len() > 0,
            forall|i: int|
                0 <= i < j ==> #[trigger] firsts@[i]@ == unicode_uppercase(ws@[i]@[0]),
            forall|i: int|
                0 <= i < j ==> is_ascii_char(ws@[i]@[0]) ==> unicode_uppercase(ws@[i]@[0]) == seq![
                    ascii_upper_char(#[trigger] ws@[i]@[0]),
                ],
        decreases ws@.len() - j,
    {
        let up = to_uppercase(ws[j][0]);
        firsts.push(up);
        j += 1;
    }
    let r = join_title(&ws, &firsts);
    proof {
        assert(firsts@.map_values(|f: String| f@) =~= uppercase_firsts(views(ws@)));
        let wv = views(ws@);
        if forall|i: int| 0 <= i < wv.len() ==> is_ascii_char(#[trigger] wv[i][0]) {
            assert forall|i: int| 0 <= i < wv.len() implies #[trigger] uppercase_firsts(wv)[i]
                == ascii_capitals(wv)[i] by {
                assert(wv[i] == ws@[i]@);
                assert(is_ascii_char(wv[i][0]));
            }
            assert(uppercase_firsts(wv) =~= ascii_capitals(wv));
        }
    }
    r
}

// ---------------------------------------------------------------------------
// Renaming a cloned template
// ---------------------------------------------------------------------------
/// The number of random bytes in a fresh session secret.
pub const SECRET_BYTES: usize = 32;

/// `RngCore::fill_bytes` of the rand crate on a buffer of `n` zero bytes,
/// with the thread-local generator. The bytes are random: only their number
/// is stated. It panics only where the operating system has no randomness
/// to give.
#[verifier::external_body]
fn random_bytes(n: usize) -> (r: Vec<u8>)
    ensures
        r@.len() == n,
{
    let mut b = vec![0u8; n];
    rand::thread_rng().fill_bytes(&mut b);
    b
}

/// A fresh session secret: 32 random bytes as 64 lowercase hexadecimal
/// digits.
pub fn random_secret() -> (r: String)
    ensures
        exists|bytes: Seq<u8>| bytes.len() == 32 && r@ == hex_lower(bytes),
        r@.len() == 64,
{
    let b = random_bytes(SECRET_BYTES);
    let mut r = String::new();
    push_hex(&mut r, b.as_slice());
    proof {
        crate::text::lemma_hex_lower_shape(b@);
        assert(r@ =~= hex_lower(b@));
    }
    r
}

/// One textual replacement in a file of the project.
pub struct Replacement {
    pub path: String,
    pub from: String,
    pub to: String,
    /// Whether a failure to read or write the file stops `init`.
    pub required: bool,
}

/// The plain value of a replacement: path, pattern, replacement, required.
pub open spec fn replacement_view(r: Replacement) -> (Seq<char>, Seq<char>, Seq<char>, bool) {
    (r.path@, r.from@, r.to@, r.required)
}

/// What `init` changes for a project name.
pub struct InitPlan {
    /// The package name.
    pub package: String,
    /// The application name.
    pub app_name: String,
    /// The replacements in project files, in order.
    pub replacements: Vec<Replacement>,
    /// The contents of the marker file `.linger/init.json`.
    pub marker: String,
}

/// The replacements that renaming a project to `pkg`/`app` makes.
pub open spec fn init_replacements(pkg: Seq<char>, app: Seq<char>) -> Seq<
    (Seq<char>, Seq<char>, Seq<char>, bool),
> {
    seq![
        ("Cargo.toml"@, "name = \"linger\""@, "name = \""@ + pkg + "\""@, true),
        ("README.md"@, "Linger"@, app, false),
        ("config/app.toml"@, "name = \"Linger\""@, "name = \""@ + app + "\""@, true),
        (
            "config/session.toml"@,
            "cookie_name = \"linger_session\""@,
            "cookie_name = \""@ + replaced(pkg, "-"@, "_"@) + "_session\""@,
            true,
        ),
        (
            "config/database.toml"@,
            "sqlite://tmp/linger.sqlite3"@,
            "sqlite://tmp/"@ + pkg + ".sqlite3"@,
            true,
        ),
    ]
}

/// The marker file contents for a package name.
pub open spec fn init_marker(pkg: Seq<char>) -> Seq<char> {
    "{\"name\":\""@ + pkg + "\"}\n"@
}

fn replacement(path: &str, from: &str, to: String, required: bool) -> (r: Replacement)
    ensures
        replacement_view(r) == (path@, from@, to@, required),
{
    Replacement { path: path.to_owned(), from: from.to_owned(), to, required }
}

/// What `init` changes when the project is named `name`.
pub fn init_plan(name: &str) -> (r: InitPlan)
    ensures
        r.package@ == package_name(unicode_lowercase(name@)),
        r.app_name@ == title_text(r.package@),
        r.replacements@.map_values(|x: Replacement| replacement_view(x)) == init_replacements(
            r.package@,
            r.app_name@,
        ),
        r.marker@ == init_marker(r.package@),
{
    let pkg = normalize_package(name);
    let app_name = title(pkg.as_str());
    let p = pkg.as_str();
    let mut rs: Vec<Replacement> = Vec::new();
    let mut t1 = "name = \"".to_owned();
    push_str(&mut t1, p);
    push_str(&mut t1, "\"");
    rs.push(replacement("Cargo.toml", "name = \"linger\"", t1, true));
    rs.push(replacement("README.md", "Linger", app_name.as_str().to_owned(), false));
    let mut t3 = "name = \"".to_owned();
    push_str(&mut t3, app_name.as_str());
    push_str(&mut t3, "\"");
    rs.push(replacement("config/app.toml", "name = \"Linger\"", t3, true));
    let mut t4 = "cookie_name = \"".to_owned();
    let underscored = replace_all(p, "-", "_");
    push_str(&mut t4, underscored.as_str());
    push_str(&mut t4, "_session\"");
    rs.push(replacement("config/session.toml", "cookie_name = \"linger_session\"", t4, true));
    let mut t5 = "sqlite://tmp/".to_owned();
    push_str(&mut t5, p);
    push_str(&mut t5, ".sqlite3");
    rs.push(replacement("config/database.toml", "sqlite://tmp/linger.sqlite3", t5, true));
    let mut marker = "{\"name\":\"".to_owned();
    push_str(&mut marker, p);
    push_str(&mut marker, "\"}\n");
    proof {
        assert(rs@.map_values(|x: Replacement| replacement_view(x)) =~= init_replacements(
            pkg@,
            app_name@,
        ));
    }
    InitPlan { package: pkg, app_name, replacements: rs, marker }
}

/// The `.env` line that holds the placeholder session secret.
pub open spec fn placeholder_secret_line() -> Seq<char> {
    "SESSION_SECRET=change-me"@
}

/// The `.env` contents with the placeholder secret line set to `secret`.
pub fn env_with_secret(env: &str, secret: &str) -> (r: String)
    ensures
        r@ == replaced(env@, placeholder_secret_line(), "SESSION_SECRET="@ + secret@),
{
    let mut to = "SESSION_SECRET=".to_owned();
    push_str(&mut to, secret);
    replace_all(env, "SESSION_SECRET=change-me", to.as_str())
}

} // verus!
