//! The domain generator: naming, planning and source text of a new domain
//! module.
use vstd::prelude::*;
use crate::text::{
    ascii_alnum, ascii_digit, ascii_lower, ascii_lower_case, ascii_upper, chars_of, is_ascii_alnum,
    is_ascii_digit, is_ascii_lower, is_ascii_upper, matches_at, ascii_lower_seq, find_from, push_range, push_str, string_of,
    to_ascii_lower, trim, trim_both, trim_end, trim_start, TrimClass, before_first,
    before_first_char, contains_char, equals_str, first_occurrence, find, replaced, replace_all,
    slice_of, slice_of_all, split_once, split_once_char, trim_end_of, contains_seq, contains_str,
    split_char, lemma_split_char_absent, lemma_second_word,
};

verus! {

/// What the `generate domain` command was asked for.
pub struct DomainArgs {
    pub name: String,
    pub fields: Vec<String>,
    pub crud: bool,
    pub no_web: bool,
    pub dry_run: bool,
    pub yes: bool,
}

// ---------------------------------------------------------------------------
// Domain names
// ---------------------------------------------------------------------------
pub open spec fn is_lower_or_digit(c: char) -> bool {
    is_ascii_lower(c) || is_ascii_digit(c)
}

/// Some ASCII letter or digit stands before position `i` of `s`.
pub open spec fn alnum_before(s: Seq<char>, i: int) -> bool
    decreases i,
{
    if i <= 0 {
        false
    } else {
        is_ascii_alnum(s[i - 1]) || alnum_before(s, i - 1)
    }
}

/// A word of `s` starts at position `i`: after an earlier word, either a
/// run of other characters or a lowercase-or-digit to uppercase step.
pub open spec fn starts_word(s: Seq<char>, i: int) -> bool {
    &&& i > 0
    &&& alnum_before(s, i)
    &&& (!is_ascii_alnum(s[i - 1]) || (is_ascii_upper(s[i]) && is_lower_or_digit(s[i - 1])))
}

/// What position `i` of `s` contributes to its snake-case form.
pub open spec fn snake_piece(s: Seq<char>, i: int) -> Seq<char> {
    if is_ascii_alnum(s[i]) {
        if starts_word(s, i) {
            seq!['_', ascii_lower(s[i])]
        } else {
            seq![ascii_lower(s[i])]
        }
    } else {
        Seq::<char>::empty()
    }
}

/// The snake-case form of the first `n` characters of `s`.
pub open spec fn snake_upto(s: Seq<char>, n: int) -> Seq<char>
    decreases n,
{
    if n <= 0 {
        Seq::<char>::empty()
    } else {
        snake_upto(s, n - 1) + snake_piece(s, n - 1)
    }
}

/// The snake-case form of `s`: its ASCII words, lowercased and joined by
/// `_`; all other characters only separate words.
pub open spec fn snake_case(s: Seq<char>) -> Seq<char> {
    snake_upto(s, s.len() as int)
}

pub open spec fn ends_with_seq(s: Seq<char>, suffix: Seq<char>) -> bool {
    suffix.len() <= s.len() && s.skip(s.len() - suffix.len()) == suffix
}

/// The English plural of a snake-case name, by its ending.
pub open spec fn pluralized(name: Seq<char>) -> Seq<char> {
    if ends_with_seq(name, seq!['s']) {
        name
    } else if ends_with_seq(name, seq!['y']) {
        name.drop_last() + seq!['i', 'e', 's']
    } else if ends_with_seq(name, seq!['c', 'h']) || ends_with_seq(name, seq!['s', 'h'])
        || ends_with_seq(name, seq!['x']) || ends_with_seq(name, seq!['z']) {
        name + seq!['e', 's']
    } else {
        name + seq!['s']
    }
}

/// The domain name that `normalize_domain` gives for `name`.
pub open spec fn domain_name(name: Seq<char>) -> Seq<char> {
    pluralized(snake_case(name))
}

/// `s` is in snake form: lowercase ASCII letters and digits in words joined
/// by single underscores, with no underscore at either end.
pub open spec fn is_snake(s: Seq<char>) -> bool {
    &&& forall|i: int| 0 <= i < s.len() ==> is_lower_or_digit(#[trigger] s[i]) || s[i] == '_'
    &&& s.len() > 0 ==> s[0] != '_' && s.last() != '_'
    &&& forall|i: int| 0 <= i < s.len() - 1 ==> !(#[trigger] s[i] == '_' && s[i + 1] == '_')
}

proof fn lemma_ascii_lower_char(c: char)
    requires
        is_ascii_alnum(c),
    ensures
        is_lower_or_digit(ascii_lower(c)),
        ascii_lower(c) != '_',
{
}

proof fn lemma_snake_empty_iff(s: Seq<char>, n: int)
    requires
        0 <= n <= s.len(),
    ensures
        (snake_upto(s, n).len() == 0) == !alnum_before(s, n),
    decreases n,
{
    if n > 0 {
        lemma_snake_empty_iff(s, n - 1);
    }
}

/// The snake-case form of any prefix is in snake form.
proof fn lemma_snake_upto_shape(s: Seq<char>, n: int)
    requires
        0 <= n <= s.len(),
    ensures
        is_snake(snake_upto(s, n)),
    decreases n,
{
    if n > 0 {
        lemma_snake_upto_shape(s, n - 1);
        lemma_snake_empty_iff(s, n - 1);
        let prev = snake_upto(s, n - 1);
        let piece = snake_piece(s, n - 1);
        let cur = snake_upto(s, n);
        assert(cur == prev + piece);
        if is_ascii_alnum(s[n - 1]) {
            lemma_ascii_lower_char(s[n - 1]);
        }
        assert forall|i: int| 0 <= i < cur.len() implies is_lower_or_digit(#[trigger] cur[i])
            || cur[i] == '_' by {
            if i >= prev.len() {
                assert(cur[i] == piece[i - prev.len()]);
            }
        }
        assert forall|i: int| 0 <= i < cur.len() - 1 implies !(#[trigger] cur[i] == '_' && cur[i
            + 1] == '_') by {
            if i + 1 < prev.len() {
                assert(cur[i] == prev[i] && cur[i + 1] == prev[i + 1]);
            } else if i + 1 == prev.len() {
                assert(cur[i] == prev.last());
            } else {
                assert(cur[i] == piece[i - prev.len()]);
                assert(cur[i + 1] == piece[i + 1 - prev.len()]);
            }
        }
        if cur.len() > 0 {
            if prev.len() > 0 {
                assert(cur[0] == prev[0]);
            } else {
                assert(cur[0] == piece[0]);
            }
            if piece.len() > 0 {
                assert(cur.last() == piece.last());
            } else {
                assert(cur.last() == prev.last());
            }
        }
    }
}

/// `normalize_domain` turns `name` into a plural snake-case module name:
/// `"BlogPost"` and `"blog-post"` both become `"blog_posts"`.
pub fn normalize_domain(name: &str) -> (r: String)
    ensures
        r@ == domain_name(name@),
        is_snake(r@),
        ends_with_seq(r@, seq!['s']),
{
    let s = chars_of(name);
    let n = s.len();
    let mut out: Vec<char> = Vec::new();
    let mut prev_was_sep = true;
    let mut prev_was_lower_or_digit = false;
    let mut i: usize = 0;
    while i < n
        invariant
            s@ == name@,
            n == s@.len(),
            i <= n,
            prev_was_sep == !(i > 0 && is_ascii_alnum(s@[i - 1])),
            prev_was_lower_or_digit == (i > 0 && is_lower_or_digit(s@[i - 1])),
            out@ == snake_upto(s@, i as int) + pending_separator(s@, i as int),
        decreases n - i,
    {
        let ch = s[i];
        proof {
            lemma_snake_upto_shape(s@, i as int);
            lemma_snake_empty_iff(s@, i as int);
        }
        if ascii_alnum(ch) {
            if ascii_upper(ch) && prev_was_lower_or_digit && !ends_with_char(&out, '_') {
                out.push('_');
            }
            out.push(to_ascii_lower(ch));
            prev_was_sep = false;
            prev_was_lower_or_digit = ascii_lower_case(ch) || ascii_digit(ch);
        } else if !prev_was_sep && !ends_with_char(&out, '_') {
            out.push('_');
            prev_was_sep = true;
            prev_was_lower_or_digit = false;
        }
        proof {
            assert(snake_upto(s@, i + 1) == snake_upto(s@, i as int) + snake_piece(s@, i as int));
            assert(alnum_before(s@, i + 1) == (is_ascii_alnum(s@[i as int]) || alnum_before(
                s@,
                i as int,
            )));
            assert(out@ =~= snake_upto(s@, i + 1) + pending_separator(s@, i + 1));
        }
        i += 1;
    }
    let trimmed = trim(&out, &TrimClass::Char('_'));
    proof {
        lemma_snake_upto_shape(s@, n as int);
        lemma_trim_snake(snake_upto(s@, n as int), pending_separator(s@, n as int));
        assert(s@.len() == n);
        lemma_pluralized_shape(snake_upto(s@, n as int));
    }
    let base = string_of(&trimmed);
    pluralize_snake(base.as_str())
}

/// The `_` that a run of separators after a word leaves at the end of the
/// snake-case text built so far.
pub open spec fn pending_separator(s: Seq<char>, i: int) -> Seq<char> {
    if i > 0 && !is_ascii_alnum(s[i - 1]) && alnum_before(s, i) {
        seq!['_']
    } else {
        Seq::<char>::empty()
    }
}

proof fn lemma_trim_snake(t: Seq<char>, p: Seq<char>)
    requires
        is_snake(t),
        p == Seq::<char>::empty() || p == seq!['_'],
    ensures
        trim_both(t + p, TrimClass::Char('_')) == t,
{
    let c = TrimClass::Char('_');
    assert(trim_end(t, c) == t);
    if p.len() == 1 {
        assert((t + p).drop_last() =~= t);
        assert((t + p).last() == '_');
        assert(trim_end(t + p, c) == trim_end(t, c));
    } else {
        assert(t + p =~= t);
    }
    assert(trim_end(t + p, c) == t);
    assert(trim_start(t, c) == t);
}

/// Whether the last character of `v` is `c`.
pub fn ends_with_char(v: &Vec<char>, c: char) -> (b: bool)
    ensures
        b == (v@.len() > 0 && v@.last() == c),
{
    v.len() > 0 && v[v.len() - 1] == c
}

/// Whether `v` ends with the characters of `suffix`.
pub fn ends_with_str(v: &Vec<char>, suffix: &str) -> (b: bool)
    ensures
        b == ends_with_seq(v@, suffix@),
{
    let p = chars_of(suffix);
    if p.len() > v.len() {
        return false;
    }
    let start = v.len() - p.len();
    let b = matches_at(v, &p, start);
    proof {
        assert(v@.subrange(start as int, start + p@.len()) =~= v@.skip(start as int));
    }
    b
}

/// The English plural of a snake-case name.
pub fn pluralize_snake(name_text: &str) -> (r: String)
    ensures
        r@ == pluralized(name_text@),
{
    let v = chars_of(name_text);
    let name = &v;
    proof {
        reveal_strlit("s");
        reveal_strlit("y");
        reveal_strlit("ch");
        reveal_strlit("sh");
        reveal_strlit("x");
        reveal_strlit("z");
        reveal_strlit("ies");
        reveal_strlit("es");
        assert("s"@ =~= seq!['s']);
        assert("y"@ =~= seq!['y']);
        assert("ch"@ =~= seq!['c', 'h']);
        assert("sh"@ =~= seq!['s', 'h']);
        assert("x"@ =~= seq!['x']);
        assert("z"@ =~= seq!['z']);
        assert("ies"@ =~= seq!['i', 'e', 's']);
        assert("es"@ =~= seq!['e', 's']);
    }
    if ends_with_str(name, "s") {
        string_of(name)
    } else if ends_with_str(name, "y") {
        let mut r = String::new();
        push_range(&mut r, name, 0, name.len() - 1);
        push_str(&mut r, "ies");
        proof {
            assert(name@.subrange(0, name@.len() - 1) =~= name@.drop_last());
            assert(r@ =~= pluralized(name@));
        }
        r
    } else if ends_with_str(name, "ch") || ends_with_str(name, "sh") || ends_with_str(name, "x")
        || ends_with_str(name, "z") {
        let mut r = string_of(name);
        push_str(&mut r, "es");
        proof {
            assert(r@ =~= pluralized(name@));
        }
        r
    } else {
        let mut r = string_of(name);
        push_str(&mut r, "s");
        proof {
            assert(r@ =~= pluralized(name@));
        }
        r
    }
}

/// The plural of a snake-form name is in snake form and ends with `s`.
pub proof fn lemma_pluralized_shape(t: Seq<char>)
    requires
        is_snake(t),
    ensures
        is_snake(pluralized(t)),
        ends_with_seq(pluralized(t), seq!['s']),
{
    let p = pluralized(t);
    if ends_with_seq(t, seq!['s']) {
    } else if ends_with_seq(t, seq!['y']) {
        let d = t.drop_last();
        assert(p == d + seq!['i', 'e', 's']);
        assert forall|i: int| 0 <= i < p.len() implies is_lower_or_digit(#[trigger] p[i]) || p[i]
            == '_' by {
            if i < d.len() {
                assert(p[i] == t[i]);
            }
        }
        assert forall|i: int| 0 <= i < p.len() - 1 implies !(#[trigger] p[i] == '_' && p[i + 1]
            == '_') by {
            if i + 1 < d.len() {
                assert(p[i] == t[i] && p[i + 1] == t[i + 1]);
            }
        }
        if d.len() > 0 {
            assert(p[0] == t[0]);
        }
        assert(p.skip(p.len() - 1) =~= seq!['s']);
    } else {
        let e = if ends_with_seq(t, seq!['c', 'h']) || ends_with_seq(t, seq!['s', 'h'])
            || ends_with_seq(t, seq!['x']) || ends_with_seq(t, seq!['z']) {
            seq!['e', 's']
        } else {
            seq!['s']
        };
        assert(p == t + e);
        assert forall|i: int| 0 <= i < p.len() implies is_lower_or_digit(#[trigger] p[i]) || p[i]
            == '_' by {
            if i < t.len() {
                assert(p[i] == t[i]);
            }
        }
        assert forall|i: int| 0 <= i < p.len() - 1 implies !(#[trigger] p[i] == '_' && p[i + 1]
            == '_') by {
            if i + 1 < t.len() {
                assert(p[i] == t[i] && p[i + 1] == t[i + 1]);
            } else if i < t.len() {
                assert(p[i + 1] == e[0]);
            }
        }
        if t.len() > 0 {
            assert(p[0] == t[0]);
        }
        assert(p.skip(p.len() - 1) =~= seq!['s']);
    }
}

proof fn lemma_alnum_before_from_first(s: Seq<char>, k: int)
    requires
        1 <= k <= s.len(),
        is_ascii_alnum(s[0]),
    ensures
        alnum_before(s, k),
    decreases k,
{
    if k > 1 {
        lemma_alnum_before_from_first(s, k - 1);
    }
}

/// A name already in snake form is its own snake-case form.
pub proof fn lemma_snake_case_of_snake(t: Seq<char>)
    requires
        is_snake(t),
    ensures
        snake_case(t) == t,
{
    lemma_snake_prefix(t, t.len() as int);
    if t.len() > 0 {
        assert(t.take(t.len() as int) =~= t);
    } else {
        assert(t =~= Seq::<char>::empty());
    }
}

proof fn lemma_snake_prefix(t: Seq<char>, k: int)
    requires
        is_snake(t),
        0 <= k <= t.len(),
    ensures
        snake_upto(t, k) == (if k > 0 && t[k - 1] == '_' {
            t.take(k - 1)
        } else {
            t.take(k)
        }),
    decreases k,
{
    if k == 0 {
        assert(t.take(0) =~= Seq::<char>::empty());
    } else {
        let j = k - 1;
        lemma_snake_prefix(t, j);
        let c = t[j];
        assert(is_lower_or_digit(c) || c == '_');
        if c == '_' {
            assert(j > 0);
            assert(!(t[j - 1] == '_' && t[j] == '_'));
            assert(snake_piece(t, j) =~= Seq::<char>::empty());
            assert(snake_upto(t, k) =~= t.take(j));
        } else {
            assert(is_ascii_alnum(c));
            assert(ascii_lower(c) == c);
            assert(!is_ascii_upper(c));
            if j > 0 && t[j - 1] == '_' {
                assert(t[0] != '_');
                assert(is_ascii_alnum(t[0]));
                lemma_alnum_before_from_first(t, j);
                assert(starts_word(t, j));
                assert(snake_piece(t, j) == seq!['_', c]);
                assert(t.take(k) =~= t.take(j - 1) + seq!['_', c]);
            } else {
                assert(!starts_word(t, j));
                assert(snake_piece(t, j) == seq![c]);
                assert(t.take(k) =~= t.take(j) + seq![c]);
            }
        }
    }
}

/// Normalizing a domain name twice gives what normalizing once gives.
pub proof fn lemma_domain_name_idempotent(name: Seq<char>)
    ensures
        domain_name(domain_name(name)) == domain_name(name),
{
    lemma_snake_upto_shape(name, name.len() as int);
    let d = domain_name(name);
    lemma_pluralized_shape(snake_case(name));
    lemma_snake_case_of_snake(d);
}

// ---------------------------------------------------------------------------
// Field specifications (`name:type`, `name:type?`, `name:type:default=v`)
// ---------------------------------------------------------------------------
/// The regular expression that matches every character that may not stand
/// in an identifier.
pub open spec fn non_word_pattern() -> Seq<char> {
    "[^a-zA-Z0-9_]"@
}

pub open spec fn is_word_char(c: char) -> bool {
    is_ascii_alnum(c) || c == '_'
}

/// `text` with every character that is not an ASCII letter, digit or `_`
/// replaced by `rep`.
pub open spec fn non_word_replaced(text: Seq<char>, rep: Seq<char>) -> Seq<char>
    decreases text.len(),
{
    if text.len() == 0 {
        text
    } else {
        non_word_replaced(text.drop_last(), rep) + if is_word_char(text.last()) {
            seq![text.last()]
        } else {
            rep
        }
    }
}

/// `Regex::replace_all` of the regex crate with the pattern `[^a-zA-Z0-9_]`:
/// every match (one character outside ASCII letters, digits and `_`) is
/// replaced by `rep`, which holds no `$` and so is taken literally. The
/// pattern is valid, so compiling it does not fail.
#[verifier::external_body]
fn regex_replace_all(pattern: &str, text: &str, rep: &str) -> (r: String)
    requires
        pattern@ == non_word_pattern(),
        !rep@.contains('$'),
    ensures
        r@ == non_word_replaced(text@, rep@),
{
    regex::Regex::new(pattern).unwrap().replace_all(text, rep).into_owned()
}

/// The identifier that a field name becomes: characters outside ASCII
/// letters, digits and `_` replaced by `_`, lowercased, and prefixed with
/// `field_` where it would start with a digit.
pub open spec fn sanitized_ident(name: Seq<char>) -> Seq<char> {
    let t = ascii_lower_seq(non_word_replaced(name, seq!['_']));
    if t.len() > 0 && is_ascii_digit(t[0]) {
        "field_"@ + t
    } else {
        t
    }
}

proof fn lemma_non_word_replaced_word(text: Seq<char>)
    ensures
        forall|i: int|
            0 <= i < non_word_replaced(text, seq!['_']).len() ==> is_word_char(
                #[trigger] non_word_replaced(text, seq!['_'])[i],
            ),
        non_word_replaced(text, seq!['_']).len() == text.len(),
    decreases text.len(),
{
    if text.len() > 0 {
        lemma_non_word_replaced_word(text.drop_last());
        let a = non_word_replaced(text.drop_last(), seq!['_']);
        let r = non_word_replaced(text, seq!['_']);
        assert forall|i: int| 0 <= i < r.len() implies is_word_char(#[trigger] r[i]) by {
            if i < a.len() {
                assert(r[i] == a[i]);
            }
        }
    }
}

/// Turns a field name into a safe lowercase identifier.
pub fn sanitize_ident(name: &str) -> (r: String)
    ensures
        r@ == sanitized_ident(name@),
        forall|i: int| 0 <= i < r@.len() ==> is_word_char(#[trigger] r@[i]),
        r@.len() > 0 ==> !is_ascii_digit(r@[0]),
{
    proof {
        reveal_strlit("_");
        assert("_"@ =~= seq!['_']);
    }
    let replaced_text = regex_replace_all("[^a-zA-Z0-9_]", name, "_");
    let v = chars_of(replaced_text.as_str());
    let mut lowered: Vec<char> = Vec::new();
    let mut i: usize = 0;
    while i < v.len()
        invariant
            i <= v@.len(),
            lowered@ == ascii_lower_seq(v@.take(i as int)),
        decreases v@.len() - i,
    {
        lowered.push(to_ascii_lower(v[i]));
        proof {
            assert(ascii_lower_seq(v@.take(i + 1)) =~= ascii_lower_seq(v@.take(i as int)).push(
                ascii_lower(v@[i as int]),
            ));
        }
        i += 1;
    }
    proof {
        assert(v@.take(v@.len() as int) =~= v@);
        lemma_non_word_replaced_word(name@);
        reveal_strlit("field_");
    }
    let ghost t = lowered@;
    if lowered.len() > 0 && ascii_digit(lowered[0]) {
        let mut r = "field_".to_owned();
        push_range(&mut r, &lowered, 0, lowered.len());
        proof {
            assert(lowered@.subrange(0, lowered@.len() as int) =~= lowered@);
            assert forall|i: int| 0 <= i < r@.len() implies is_word_char(#[trigger] r@[i]) by {
                if i >= 6 {
                    assert(r@[i] == t[i - 6]);
                }
            }
        }
        r
    } else {
        string_of(&lowered)
    }
}

/// The declared type of a field: what comes before any further `:`, without
/// trailing `?`.
pub open spec fn field_type(rest: Seq<char>) -> Seq<char> {
    trim_end(before_first(rest, ':'), TrimClass::Char('?'))
}

/// The Rust type that a field type is stored as.
pub open spec fn rust_type_of(ty: Seq<char>) -> Seq<char> {
    if ty == "string"@ || ty == "text"@ {
        "String"@
    } else if ty == "bool"@ {
        "bool"@
    } else if ty == "int"@ {
        "i32"@
    } else if ty == "bigint"@ {
        "i64"@
    } else if ty == "float"@ {
        "f64"@
    } else if ty == "datetime"@ {
        "DateTime<Utc>"@
    } else {
        "String"@
    }
}

/// The struct field that a field specification declares: its identifier and
/// its Rust type (wrapped in `Option` where the type is marked `?`).
pub open spec fn field_decl(raw: Seq<char>) -> Option<(Seq<char>, Seq<char>)> {
    match split_once(raw, ':') {
        None => None,
        Some((name, rest)) => {
            let base = rust_type_of(field_type(rest));
            let ty = if rest.contains('?') {
                "Option<"@ + base + ">"@
            } else {
                base
            };
            Some((sanitized_ident(name), ty))
        },
    }
}

fn rust_type_name(ty: &Vec<char>) -> (r: &'static str)
    ensures
        r@ == rust_type_of(ty@),
{
    if equals_str(ty, "string") || equals_str(ty, "text") {
        "String"
    } else if equals_str(ty, "bool") {
        "bool"
    } else if equals_str(ty, "int") {
        "i32"
    } else if equals_str(ty, "bigint") {
        "i64"
    } else if equals_str(ty, "float") {
        "f64"
    } else if equals_str(ty, "datetime") {
        "DateTime<Utc>"
    } else {
        "String"
    }
}

/// Reads a field specification such as `title:string` or `age:int?` as a
/// struct field; `None` where it has no `:`.
pub fn parse_field(raw: &str) -> (r: Option<(String, String)>)
    ensures
        r matches Some((a, b)) ==> field_decl(raw@) == Some((a@, b@)),
        r is None ==> field_decl(raw@) is None,
{
    let v = chars_of(raw);
    let (name, rest) = match split_once_char(&v, ':') {
        Some(p) => p,
        None => return None,
    };
    let nullable = contains_char(&rest, '?');
    let ty = trim_end_of(&before_first_char(&rest, ':'), &TrimClass::Char('?'));
    let base = rust_type_name(&ty);
    let rust_ty = if nullable {
        let mut t = "Option<".to_owned();
        push_str(&mut t, base);
        push_str(&mut t, ">");
        t
    } else {
        base.to_owned()
    };
    let name_s = string_of(&name);
    Some((sanitize_ident(name_s.as_str()), rust_ty))
}

/// What separates a field type from its default value.
pub open spec fn default_marker() -> Seq<char> {
    ":default="@
}

/// The default value of a field: the text between the first and the second
/// `:default=` (or the end), as the second piece of `str::split`.
pub open spec fn default_value(rest: Seq<char>) -> Option<Seq<char>> {
    match first_occurrence(rest, default_marker()) {
        None => None,
        Some(k) => {
            let after = rest.skip(k + default_marker().len());
            match first_occurrence(after, default_marker()) {
                Some(k2) => Some(after.take(k2)),
                None => Some(after),
            }
        },
    }
}

/// The SQL column type that a field type is stored as.
pub open spec fn sql_type_of(ty: Seq<char>) -> Seq<char> {
    if ty == "string"@ || ty == "text"@ || ty == "datetime"@ {
        "TEXT"@
    } else if ty == "bool"@ || ty == "int"@ || ty == "bigint"@ {
        "INTEGER"@
    } else if ty == "float"@ {
        "REAL"@
    } else {
        "TEXT"@
    }
}

pub open spec fn is_textual(ty: Seq<char>) -> bool {
    ty == "string"@ || ty == "text"@ || ty == "datetime"@
}

/// The column definition of a field: its SQL type, `NOT NULL` unless marked
/// `?`, and its default (quoted, with quotes doubled, for textual types).
pub open spec fn column_def(rest: Seq<char>) -> Seq<char> {
    let ty = field_type(rest);
    let base = sql_type_of(ty);
    let with_null = if rest.contains('?') {
        base
    } else {
        base + " NOT NULL"@
    };
    match default_value(rest) {
        None => with_null,
        Some(d) => with_null + " DEFAULT "@ + if is_textual(ty) {
            "'"@ + replaced(d, "'"@, "''"@) + "'"@
        } else {
            d
        },
    }
}

/// The table column that a field specification declares.
pub open spec fn sql_field_decl(raw: Seq<char>) -> Option<(Seq<char>, Seq<char>)> {
    match split_once(raw, ':') {
        None => None,
        Some((name, rest)) => Some((sanitized_ident(name), column_def(rest))),
    }
}

/// Whether a Rust type is an `Option<..>`.
pub open spec fn is_option_type(t: Seq<char>) -> bool {
    "Option<"@.is_prefix_of(t)
}

/// Whether a column definition declares its column `NOT NULL`: its second
/// space-separated word is `NOT`.
pub open spec fn is_not_null_column(c: Seq<char>) -> bool {
    split_char(c, ' ').len() > 1 && split_char(c, ' ')[1] == "NOT"@
}

proof fn lemma_rust_type_not_option(ty: Seq<char>)
    ensures
        !is_option_type(rust_type_of(ty)),
{
    reveal_strlit("Option<");
    reveal_strlit("String");
    reveal_strlit("bool");
    reveal_strlit("i32");
    reveal_strlit("i64");
    reveal_strlit("f64");
    reveal_strlit("DateTime<Utc>");
    let t = rust_type_of(ty);
    if is_option_type(t) {
        assert(t.subrange(0, 7)[0] == t[0]);
        assert(t[0] == 'O');
    }
}

proof fn lemma_sql_type_one_word(ty: Seq<char>)
    ensures
        !sql_type_of(ty).contains(' '),
{
    reveal_strlit("TEXT");
    reveal_strlit("INTEGER");
    reveal_strlit("REAL");
    let t = sql_type_of(ty);
    assert forall|i: int| 0 <= i < t.len() implies t[i] != ' ' by {}
}

/// The nullability of a column: `NOT NULL` exactly where the type carries
/// no `?`.
proof fn lemma_column_nullability(rest: Seq<char>)
    ensures
        is_not_null_column(column_def(rest)) <==> !rest.contains('?'),
{
    reveal_strlit(" NOT NULL");
    reveal_strlit("NOT");
    reveal_strlit(" NULL");
    reveal_strlit(" DEFAULT ");
    reveal_strlit("DEFAULT");
    let base = sql_type_of(field_type(rest));
    lemma_sql_type_one_word(field_type(rest));
    let not_word: Seq<char> = "NOT"@;
    let default_word: Seq<char> = "DEFAULT"@;
    assert(!not_word.contains(' ')) by {
        assert forall|i: int| 0 <= i < not_word.len() implies not_word[i] != ' ' by {}
    }
    assert(!default_word.contains(' ')) by {
        assert forall|i: int| 0 <= i < default_word.len() implies default_word[i] != ' ' by {}
    }
    assert(" NOT NULL"@ =~= seq![' '] + not_word + " NULL"@);
    assert(" DEFAULT "@ =~= seq![' '] + default_word + seq![' ']);
    let c = column_def(rest);
    match default_value(rest) {
        None => {
            if rest.contains('?') {
                assert(c == base);
                lemma_split_char_absent(base, ' ');
            } else {
                assert(c =~= base + seq![' '] + not_word + " NULL"@);
                lemma_second_word(base, not_word, " NULL"@);
            }
        },
        Some(d) => {
            let q = if is_textual(field_type(rest)) {
                "'"@ + replaced(d, "'"@, "''"@) + "'"@
            } else {
                d
            };
            if rest.contains('?') {
                assert(c =~= base + seq![' '] + default_word + (seq![' '] + q));
                lemma_second_word(base, default_word, seq![' '] + q);
                assert(default_word.len() != not_word.len());
            } else {
                let r = " NULL"@ + " DEFAULT "@ + q;
                assert(c =~= base + seq![' '] + not_word + r);
                assert(r[0] == ' ');
                lemma_second_word(base, not_word, r);
            }
        },
    }
}

/// `parse_field` and `parse_sql_field` read a field specification alike:
/// both refuse exactly the text without `:`, both name the field by the
/// sanitized text before the first `:`, and the struct field is an
/// `Option<..>` exactly where the type carries `?`, which is exactly where
/// the column is not declared `NOT NULL`.
pub proof fn lemma_field_and_column_agree(raw: Seq<char>)
    ensures
        field_decl(raw) is None <==> !raw.contains(':'),
        sql_field_decl(raw) is None <==> !raw.contains(':'),
        field_decl(raw) matches Some((n1, t1)) ==> sql_field_decl(raw) matches Some((n2, c2))
            && split_once(raw, ':') matches Some((name, rest))
            && n1 == sanitized_ident(name)
            && n2 == n1
            && (is_option_type(t1) <==> rest.contains('?'))
            && (is_option_type(t1) <==> !is_not_null_column(c2)),
{
    crate::text::lemma_split_once_some(raw, ':');
    if let Some((name, rest)) = split_once(raw, ':') {
        let base = rust_type_of(field_type(rest));
        lemma_rust_type_not_option(field_type(rest));
        reveal_strlit("Option<");
        if rest.contains('?') {
            let t1 = "Option<"@ + base + ">"@;
            assert(t1.subrange(0, 7) =~= "Option<"@);
        }
        lemma_column_nullability(rest);
    }
}

fn sql_type_name(ty: &Vec<char>) -> (r: &'static str)
    ensures
        r@ == sql_type_of(ty@),
{
    if equals_str(ty, "string") || equals_str(ty, "text") || equals_str(ty, "datetime") {
        "TEXT"
    } else if equals_str(ty, "bool") || equals_str(ty, "int") || equals_str(ty, "bigint") {
        "INTEGER"
    } else if equals_str(ty, "float") {
        "REAL"
    } else {
        "TEXT"
    }
}

fn default_of(rest: &Vec<char>) -> (r: Option<Vec<char>>)
    ensures
        r matches Some(d) ==> default_value(rest@) == Some(d@),
        r is None ==> default_value(rest@) is None,
{
    let marker = chars_of(":default=");
    proof {
        reveal_strlit(":default=");
    }
    match find(rest, &marker, 0) {
        None => None,
        Some(k) => {
            let rl = rest.len();
            let ml = marker.len();
            proof {
                crate::text::lemma_find_from_bounds(rest@, marker@, 0);
                assert(k + ml <= rl);
            }
            let start = k + ml;
            let after = slice_of(rest, start, rest.len());
            proof {
                assert(after@ =~= rest@.skip(k + default_marker().len()));
                crate::text::lemma_find_from_bounds(after@, marker@, 0);
            }
            match find(&after, &marker, 0) {
                Some(k2) => {
                    let d = slice_of(&after, 0, k2);
                    proof {
                        assert(d@ =~= after@.take(k2 as int));
                    }
                    Some(d)
                },
                None => Some(after),
            }
        },
    }
}

/// Reads a field specification such as `title:string:default=x` as a table
/// column; `None` where it has no `:`.
pub fn parse_sql_field(raw: &str) -> (r: Option<(String, String)>)
    ensures
        r matches Some((a, b)) ==> sql_field_decl(raw@) == Some((a@, b@)),
        r is None ==> sql_field_decl(raw@) is None,
{
    let v = chars_of(raw);
    let (name, rest) = match split_once_char(&v, ':') {
        Some(p) => p,
        None => return None,
    };
    let nullable = contains_char(&rest, '?');
    let default = default_of(&rest);
    let ty = trim_end_of(&before_first_char(&rest, ':'), &TrimClass::Char('?'));
    let sql_ty = sql_type_name(&ty);
    let mut col = sql_ty.to_owned();
    if !nullable {
        push_str(&mut col, " NOT NULL");
    }
    if let Some(d) = default {
        push_str(&mut col, " DEFAULT ");
        if equals_str(&ty, "string") || equals_str(&ty, "text") || equals_str(&ty, "datetime") {
            crate::text::push_char(&mut col, '\'');
            let d_s = string_of(&d);
            let doubled = replace_all(d_s.as_str(), "'", "''");
            push_str(&mut col, doubled.as_str());
            crate::text::push_char(&mut col, '\'');
            proof {
                reveal_strlit("'");
                assert("'"@ =~= seq!['\'']);
            }
        } else {
            let d_s = string_of(&d);
            push_str(&mut col, d_s.as_str());
        }
    }
    proof {
        assert(col@ =~= column_def(rest@));
    }
    let name_s = string_of(&name);
    Some((sanitize_ident(name_s.as_str()), col))
}


// ---------------------------------------------------------------------------
// Planning a domain
// ---------------------------------------------------------------------------
/// A change to the file system, in the order the generator makes them.
pub enum FsAction {
    /// Create a directory and its parents.
    CreateDir { path: String },
    /// Write a whole file.
    Write { path: String, contents: String },
    /// Append `text` to the file unless it already holds `text` without its
    /// surrounding whitespace.
    AppendUnique { path: String, text: String },
}

/// The plain value of a file-system change.
pub enum FsStep {
    CreateDir(Seq<char>),
    Write(Seq<char>, Seq<char>),
    AppendUnique(Seq<char>, Seq<char>),
}

impl View for FsAction {
    type V = FsStep;

    open spec fn view(&self) -> FsStep {
        match self {
            FsAction::CreateDir { path } => FsStep::CreateDir(path@),
            FsAction::Write { path, contents } => FsStep::Write(path@, contents@),
            FsAction::AppendUnique { path, text } => FsStep::AppendUnique(path@, text@),
        }
    }
}

pub open spec fn action_views(v: Seq<FsAction>) -> Seq<FsStep> {
    v.map_values(|a: FsAction| a@)
}

/// What generating a domain will do.
pub struct DomainPlan {
    /// The normalized domain name.
    pub name: String,
    /// The directory of the domain module.
    pub dir: String,
    /// The files that the generator reports, in order.
    pub files: Vec<String>,
    /// The changes to make, in order; none for a dry run.
    pub actions: Vec<FsAction>,
}

/// Why a domain cannot be generated from its arguments.
pub enum GenerateError {
    /// `--crud` asks for pages that `--no-web` rules out.
    CrudConflictsWithNoWeb,
}

/// The message that reports a generation error to the user.
pub open spec fn generate_error_text(e: GenerateError) -> Seq<char> {
    match e {
        GenerateError::CrudConflictsWithNoWeb => "--crud conflicts with --no-web"@,
    }
}

impl GenerateError {
    /// The message that reports the error to the user.
    pub fn message(&self) -> (r: String)
        ensures
            r@ == generate_error_text(*self),
    {
        match self {
            GenerateError::CrudConflictsWithNoWeb => "--crud conflicts with --no-web".to_owned(),
        }
    }
}

pub open spec fn domain_dir(name: Seq<char>) -> Seq<char> {
    "src/"@ + name
}

pub open spec fn pages_dir(name: Seq<char>) -> Seq<char> {
    "templates/pages/"@ + name
}

/// The migration file of a domain, named by a timestamp.
pub open spec fn migration_file(name: Seq<char>, stamp: Seq<char>) -> Seq<char> {
    "migrations/"@ + stamp + "_create_"@ + name + ".sql"@
}

/// The files of a domain, in the order the generator reports them.
pub open spec fn planned_files(name: Seq<char>, crud: bool, no_web: bool, stamp: Seq<char>) -> Seq<
    Seq<char>,
> {
    let dir = domain_dir(name);
    let pages = pages_dir(name);
    let module = seq![
        dir + "/mod.rs"@,
        dir + "/routes.rs"@,
        dir + "/handlers.rs"@,
        dir + "/repository.rs"@,
    ];
    let data = if crud {
        seq![dir + "/model.rs"@, migration_file(name, stamp)]
    } else {
        Seq::<Seq<char>>::empty()
    };
    let web = if no_web {
        Seq::<Seq<char>>::empty()
    } else if crud {
        seq![
            pages + "/index.html"@,
            pages + "/show.html"@,
            pages + "/new.html"@,
            pages + "/edit.html"@,
            pages + "/_form.html"@,
            pages + "/_row.html"@,
        ]
    } else {
        seq![pages + "/index.html"@]
    };
    module + data + web
}

/// The module files of a domain.
pub open spec fn module_steps(name: Seq<char>, crud: bool, no_web: bool) -> Seq<FsStep> {
    let dir = domain_dir(name);
    seq![
        FsStep::CreateDir(dir),
        FsStep::Write(dir + "/mod.rs"@, crate::scaffold::module_text(crud)),
        FsStep::Write(dir + "/routes.rs"@, crate::scaffold::routes_text(name, crud, no_web)),
        FsStep::Write(dir + "/handlers.rs"@, crate::scaffold::handlers_text(name, crud)),
        FsStep::Write(dir + "/repository.rs"@, crate::scaffold::repository_text(name, crud)),
    ]
}

/// The model and migration of a CRUD domain.
pub open spec fn data_steps(name: Seq<char>, fields: Seq<Seq<char>>, stamp: Seq<char>) -> Seq<
    FsStep,
> {
    seq![
        FsStep::Write(domain_dir(name) + "/model.rs"@, crate::scaffold::model_text(name, fields)),
        FsStep::CreateDir("migrations"@),
        FsStep::Write(migration_file(name, stamp), crate::scaffold::migration_text(name, fields)),
    ]
}

/// The index page of a domain.
pub open spec fn index_steps(name: Seq<char>) -> Seq<FsStep> {
    let pages = pages_dir(name);
    seq![
        FsStep::CreateDir(pages),
        FsStep::Write(pages + "/index.html"@, crate::scaffold::page_text(name, "index"@)),
    ]
}

/// The other pages of a CRUD domain.
pub open spec fn crud_page_steps(name: Seq<char>) -> Seq<FsStep> {
    let pages = pages_dir(name);
    seq![
        FsStep::Write(pages + "/show.html"@, crate::scaffold::page_text(name, "show"@)),
        FsStep::Write(pages + "/new.html"@, crate::scaffold::page_text(name, "new"@)),
        FsStep::Write(pages + "/edit.html"@, crate::scaffold::page_text(name, "edit"@)),
        FsStep::Write(pages + "/_form.html"@, crate::scaffold::form_text(name)),
        FsStep::Write(pages + "/_row.html"@, crate::scaffold::row_text(name)),
    ]
}

/// The notes that wire a domain into the application.
pub open spec fn wiring_steps(name: Seq<char>) -> Seq<FsStep> {
    seq![
        FsStep::AppendUnique("src/lib.rs"@, crate::scaffold::module_declaration_text(name)),
        FsStep::AppendUnique("src/router.rs"@, crate::scaffold::route_reminder_text(name)),
        FsStep::AppendUnique(
            "src/repositories.rs"@,
            crate::scaffold::repository_reminder_text(name),
        ),
    ]
}

/// The changes that generating a domain makes, in order.
pub open spec fn planned_actions(
    name: Seq<char>,
    fields: Seq<Seq<char>>,
    crud: bool,
    no_web: bool,
    stamp: Seq<char>,
) -> Seq<FsStep> {
    let data = if crud {
        data_steps(name, fields, stamp)
    } else {
        Seq::<FsStep>::empty()
    };
    let web = if no_web {
        Seq::<FsStep>::empty()
    } else if crud {
        index_steps(name) + crud_page_steps(name)
    } else {
        index_steps(name)
    };
    module_steps(name, crud, no_web) + data + web + wiring_steps(name)
}

/// The format of migration timestamps: UTC date and time as digits.
pub open spec fn migration_stamp_format() -> Seq<char> {
    "%Y%m%d%H%M%S"@
}

/// Whether `s` is a UTC time as `%Y%m%d%H%M%S` writes it: 14 ASCII digits
/// for the years up to 9999; for a later year, `+`, the year's digits and
/// ten more digits.
pub open spec fn is_utc_stamp(s: Seq<char>) -> bool {
    ||| s.len() == 14 && crate::text::all_digits(s)
    ||| s.len() > 15 && s[0] == '+' && crate::text::all_digits(s.skip(1))
}

/// `chrono::Utc::now()` formatted with `format`. Which time comes out
/// depends on the clock; the format is the migration stamp's, so the
/// formatting does not fail and gives the year, month, day, hour, minute and
/// second as zero-padded digits (the year with a `+` past 9999; the clock
/// cannot read before 1970).
#[verifier::external_body]
fn utc_now_formatted(format: &str) -> (r: String)
    requires
        format@ == migration_stamp_format(),
    ensures
        is_utc_stamp(r@),
{
    chrono::Utc::now().format(format).to_string()
}

/// The migration file of a domain, stamped with the current UTC time.
pub fn migration_path(name: &str) -> (r: String)
    ensures
        exists|stamp: Seq<char>| is_utc_stamp(stamp) && r@ == migration_file(name@, stamp),
{
    let stamp = utc_now_formatted("%Y%m%d%H%M%S");
    migration_file_at(name, stamp.as_str())
}

/// The migration file of a domain for a given timestamp.
pub fn migration_file_at(name: &str, stamp: &str) -> (r: String)
    ensures
        r@ == migration_file(name@, stamp@),
{
    let mut r = "migrations/".to_owned();
    push_str(&mut r, stamp);
    push_str(&mut r, "_create_");
    push_str(&mut r, name);
    push_str(&mut r, ".sql");
    proof {
        assert(r@ =~= migration_file(name@, stamp@));
    }
    r
}

fn joined(base: &str, tail: &str) -> (r: String)
    ensures
        r@ == base@ + tail@,
{
    let mut r = base.to_owned();
    push_str(&mut r, tail);
    r
}

/// `p` is the plan of the domain that `args` asks for, with `listed` the
/// timestamp of the migration in the reported files and `written` the one
/// of the migration written.
pub open spec fn is_plan_for(p: DomainPlan, args: DomainArgs, listed: Seq<char>, written: Seq<char>) -> bool {
    let name = domain_name(args.name@);
    &&& p.name@ == name
    &&& p.dir@ == domain_dir(name)
    &&& crate::scaffold::string_views(p.files@) == planned_files(
        name,
        args.crud,
        args.no_web,
        listed,
    )
    &&& action_views(p.actions@) == if args.dry_run {
        Seq::<FsStep>::empty()
    } else {
        planned_actions(
            name,
            crate::scaffold::string_views(args.fields@),
            args.crud,
            args.no_web,
            written,
        )
    }
}

/// Plans a domain for the given timestamps: `listed_stamp` names the
/// migration in the reported files and `written_stamp` the migration that
/// is written.
pub fn plan_domain_at(args: &DomainArgs, listed_stamp: &str, written_stamp: &str) -> (r: Result<
    DomainPlan,
    GenerateError,
>)
    ensures
        r is Err <==> args.crud && args.no_web,
        r matches Ok(p) ==> is_plan_for(p, *args, listed_stamp@, written_stamp@),
{
    if args.crud && args.no_web {
        return Err(GenerateError::CrudConflictsWithNoWeb);
    }
    let name = normalize_domain(args.name.as_str());
    let n = name.as_str();
    let dir = joined("src/", n);
    let pages = joined("templates/pages/", n);
    let d = dir.as_str();
    let pg = pages.as_str();
    let mut files: Vec<String> = Vec::new();
    files.push(joined(d, "/mod.rs"));
    files.push(joined(d, "/routes.rs"));
    files.push(joined(d, "/handlers.rs"));
    files.push(joined(d, "/repository.rs"));
    if args.crud {
        files.push(joined(d, "/model.rs"));
        files.push(migration_file_at(n, listed_stamp));
    }
    if !args.no_web {
        files.push(joined(pg, "/index.html"));
        if args.crud {
            files.push(joined(pg, "/show.html"));
            files.push(joined(pg, "/new.html"));
            files.push(joined(pg, "/edit.html"));
            files.push(joined(pg, "/_form.html"));
            files.push(joined(pg, "/_row.html"));
        }
    }
    proof {
        assert(crate::scaffold::string_views(files@) =~= planned_files(
            name@,
            args.crud,
            args.no_web,
            listed_stamp@,
        ));
    }
    let mut actions: Vec<FsAction> = Vec::new();
    if !args.dry_run {
        actions.push(FsAction::CreateDir { path: d.to_owned() });
        actions.push(
            FsAction::Write {
                path: joined(d, "/mod.rs"),
                contents: crate::scaffold::module_source(args.crud),
            },
        );
        actions.push(
            FsAction::Write {
                path: joined(d, "/routes.rs"),
                contents: crate::scaffold::routes_source(n, args.crud, args.no_web),
            },
        );
        actions.push(
            FsAction::Write {
                path: joined(d, "/handlers.rs"),
                contents: crate::scaffold::handlers_source(n, args.crud),
            },
        );
        actions.push(
            FsAction::Write {
                path: joined(d, "/repository.rs"),
                contents: crate::scaffold::repository_source(n, args.crud),
            },
        );
        if args.crud {
            actions.push(
                FsAction::Write {
                    path: joined(d, "/model.rs"),
                    contents: crate::scaffold::model_source(n, args.fields.as_slice()),
                },
            );
            actions.push(FsAction::CreateDir { path: "migrations".to_owned() });
            actions.push(
                FsAction::Write {
                    path: migration_file_at(n, written_stamp),
                    contents: crate::scaffold::migration_source(n, args.fields.as_slice()),
                },
            );
        }
        if !args.no_web {
            actions.push(FsAction::CreateDir { path: pg.to_owned() });
            actions.push(
                FsAction::Write {
                    path: joined(pg, "/index.html"),
                    contents: crate::scaffold::page_source(n, "index"),
                },
            );
            if args.crud {
                actions.push(
                    FsAction::Write {
                        path: joined(pg, "/show.html"),
                        contents: crate::scaffold::page_source(n, "show"),
                    },
                );
                actions.push(
                    FsAction::Write {
                        path: joined(pg, "/new.html"),
                        contents: crate::scaffold::page_source(n, "new"),
                    },
                );
                actions.push(
                    FsAction::Write {
                        path: joined(pg, "/edit.html"),
                        contents: crate::scaffold::page_source(n, "edit"),
                    },
                );
                actions.push(
                    FsAction::Write {
                        path: joined(pg, "/_form.html"),
                        contents: crate::scaffold::form_partial(n),
                    },
                );
                actions.push(
                    FsAction::Write {
                        path: joined(pg, "/_row.html"),
                        contents: crate::scaffold::row_partial(n),
                    },
                );
            }
        }
        actions.push(
            FsAction::AppendUnique {
                path: "src/lib.rs".to_owned(),
                text: crate::scaffold::module_declaration(n),
            },
        );
        actions.push(
            FsAction::AppendUnique {
                path: "src/router.rs".to_owned(),
                text: crate::scaffold::route_reminder(n),
            },
        );
        actions.push(
            FsAction::AppendUnique {
                path: "src/repositories.rs".to_owned(),
                text: crate::scaffold::repository_reminder(n),
            },
        );
        proof {
            assert(action_views(actions@) =~= planned_actions(
                name@,
                crate::scaffold::string_views(args.fields@),
                args.crud,
                args.no_web,
                written_stamp@,
            ));
        }
    } else {
        proof {
            assert(action_views(actions@) =~= Seq::<FsStep>::empty());
        }
    }
    Ok(DomainPlan { name, dir, files, actions })
}

/// Plans a domain, stamping its migration with the current UTC time as the
/// generator does: once for the reported files and once more for the file
/// it writes.
pub fn plan_domain(args: &DomainArgs) -> (r: Result<DomainPlan, GenerateError>)
    ensures
        r is Err <==> args.crud && args.no_web,
        r matches Ok(p) ==> exists|listed: Seq<char>, written: Seq<char>|
            #[trigger] is_plan_for(p, *args, listed, written)
                && (args.crud ==> is_utc_stamp(listed))
                && (args.crud && !args.dry_run ==> is_utc_stamp(written)),
{
    let listed = if args.crud && !(args.crud && args.no_web) {
        utc_now_formatted("%Y%m%d%H%M%S")
    } else {
        String::new()
    };
    let written = if args.crud && !args.no_web && !args.dry_run {
        utc_now_formatted("%Y%m%d%H%M%S")
    } else {
        String::new()
    };
    let r = plan_domain_at(args, listed.as_str(), written.as_str());
    proof {
        if r is Ok {
            let p = r->Ok_0;
            assert(is_plan_for(p, *args, listed@, written@));
        }
    }
    r
}

/// Whether `append_unique` appends `text` to a file holding `old`, and what
/// the file then holds: it appends unless `old` already contains `text`
/// without its surrounding whitespace.
pub open spec fn appended_unique(old: Seq<char>, text: Seq<char>) -> Option<Seq<char>> {
    if contains_seq(old, trim_both(text, TrimClass::Whitespace)) {
        None
    } else {
        Some(old + text)
    }
}

/// What a file holding `old` holds after appending `text` uniquely; `None`
/// where it stays as it is.
pub fn append_unique_contents(old: &str, text: &str) -> (r: Option<String>)
    ensures
        r matches Some(x) ==> appended_unique(old@, text@) == Some(x@),
        r is None ==> appended_unique(old@, text@) is None,
{
    let tv = chars_of(text);
    let core = string_of(&trim(&tv, &TrimClass::Whitespace));
    if contains_str(old, core.as_str()) {
        None
    } else {
        let mut r = old.to_owned();
        push_str(&mut r, text);
        Some(r)
    }
}

/// Appending uniquely is idempotent: once `text` has been appended, a
/// second attempt leaves the file as it is.
pub proof fn lemma_append_unique_once(old: Seq<char>, text: Seq<char>)
    ensures
        appended_unique(old, text) matches Some(new) ==> appended_unique(new, text) is None,
{
    if let Some(new) = appended_unique(old, text) {
        crate::cli::lemma_trim_shape(text, TrimClass::Whitespace);
        let t = trim_both(text, TrimClass::Whitespace);
        let (a, b) = choose|a: int, b: int|
            0 <= a <= b <= text.len() && t == text.subrange(a, b);
        assert(new == old + text);
        assert(new.subrange(old.len() + a, old.len() + a + t.len()) =~= t);
        assert(crate::text::occurs_at(new, t, old.len() + a));
    }
}

/// The paths of the files written, in order.
pub open spec fn written_paths(steps: Seq<FsStep>) -> Seq<Seq<char>>
    decreases steps.len(),
{
    if steps.len() == 0 {
        Seq::<Seq<char>>::empty()
    } else {
        written_paths(steps.drop_last()) + match steps.last() {
            FsStep::Write(p, _) => seq![p],
            _ => Seq::<Seq<char>>::empty(),
        }
    }
}

proof fn lemma_written_paths_concat(a: Seq<FsStep>, b: Seq<FsStep>)
    ensures
        written_paths(a + b) == written_paths(a) + written_paths(b),
    decreases b.len(),
{
    if b.len() == 0 {
        assert(a + b =~= a);
        assert(written_paths(a) + written_paths(b) =~= written_paths(a));
    } else {
        lemma_written_paths_concat(a, b.drop_last());
        assert((a + b).drop_last() =~= a + b.drop_last());
        assert((a + b).last() == b.last());
        assert(written_paths(a + b) =~= written_paths(a) + written_paths(b));
    }
}

proof fn lemma_written_module(name: Seq<char>, crud: bool, no_web: bool)
    ensures
        written_paths(module_steps(name, crud, no_web)) == seq![
            domain_dir(name) + "/mod.rs"@,
            domain_dir(name) + "/routes.rs"@,
            domain_dir(name) + "/handlers.rs"@,
            domain_dir(name) + "/repository.rs"@,
        ],
{
    reveal_with_fuel(written_paths, 6);
    assert(written_paths(module_steps(name, crud, no_web)) =~= seq![
        domain_dir(name) + "/mod.rs"@,
        domain_dir(name) + "/routes.rs"@,
        domain_dir(name) + "/handlers.rs"@,
        domain_dir(name) + "/repository.rs"@,
    ]);
}

proof fn lemma_written_data(name: Seq<char>, fields: Seq<Seq<char>>, stamp: Seq<char>)
    ensures
        written_paths(data_steps(name, fields, stamp)) == seq![
            domain_dir(name) + "/model.rs"@,
            migration_file(name, stamp),
        ],
{
    reveal_with_fuel(written_paths, 4);
    assert(written_paths(data_steps(name, fields, stamp)) =~= seq![
        domain_dir(name) + "/model.rs"@,
        migration_file(name, stamp),
    ]);
}

proof fn lemma_written_pages(name: Seq<char>)
    ensures
        written_paths(index_steps(name)) == seq![pages_dir(name) + "/index.html"@],
        written_paths(crud_page_steps(name)) == seq![
            pages_dir(name) + "/show.html"@,
            pages_dir(name) + "/new.html"@,
            pages_dir(name) + "/edit.html"@,
            pages_dir(name) + "/_form.html"@,
            pages_dir(name) + "/_row.html"@,
        ],
        written_paths(wiring_steps(name)) == Seq::<Seq<char>>::empty(),
{
    reveal_with_fuel(written_paths, 6);
    assert(written_paths(index_steps(name)) =~= seq![pages_dir(name) + "/index.html"@]);
    assert(written_paths(crud_page_steps(name)) =~= seq![
        pages_dir(name) + "/show.html"@,
        pages_dir(name) + "/new.html"@,
        pages_dir(name) + "/edit.html"@,
        pages_dir(name) + "/_form.html"@,
        pages_dir(name) + "/_row.html"@,
    ]);
    assert(written_paths(wiring_steps(name)) =~= Seq::<Seq<char>>::empty());
}

/// The files that the generator reports are the files that it writes, in
/// the same order, when both name the migration with the same timestamp.
pub proof fn lemma_reported_files_are_written(
    name: Seq<char>,
    fields: Seq<Seq<char>>,
    crud: bool,
    no_web: bool,
    stamp: Seq<char>,
)
    ensures
        written_paths(planned_actions(name, fields, crud, no_web, stamp)) == planned_files(
            name,
            crud,
            no_web,
            stamp,
        ),
{
    let module = module_steps(name, crud, no_web);
    let data = if crud {
        data_steps(name, fields, stamp)
    } else {
        Seq::<FsStep>::empty()
    };
    let web = if no_web {
        Seq::<FsStep>::empty()
    } else if crud {
        index_steps(name) + crud_page_steps(name)
    } else {
        index_steps(name)
    };
    let wiring = wiring_steps(name);
    lemma_written_module(name, crud, no_web);
    lemma_written_data(name, fields, stamp);
    lemma_written_pages(name);
    lemma_written_paths_concat(module + data + web, wiring);
    lemma_written_paths_concat(module + data, web);
    lemma_written_paths_concat(module, data);
    lemma_written_paths_concat(index_steps(name), crud_page_steps(name));
    assert(written_paths(Seq::<FsStep>::empty()) == Seq::<Seq<char>>::empty());
    assert(written_paths(planned_actions(name, fields, crud, no_web, stamp)) =~= planned_files(
        name,
        crud,
        no_web,
        stamp,
    ));
}

proof fn lemma_non_word_replaced_keeps_words(t: Seq<char>)
    requires
        forall|i: int| 0 <= i < t.len() ==> is_word_char(#[trigger] t[i]),
    ensures
        non_word_replaced(t, seq!['_']) == t,
    decreases t.len(),
{
    if t.len() > 0 {
        lemma_non_word_replaced_keeps_words(t.drop_last());
        assert(t.drop_last() + seq![t.last()] =~= t);
    }
}

/// Sanitizing a field name twice gives what sanitizing it once gives.
pub proof fn lemma_sanitize_idempotent(name: Seq<char>)
    ensures
        sanitized_ident(sanitized_ident(name)) == sanitized_ident(name),
{
    reveal_strlit("field_");
    lemma_non_word_replaced_word(name);
    let l = ascii_lower_seq(non_word_replaced(name, seq!['_']));
    let t = sanitized_ident(name);
    assert(forall|i: int| 0 <= i < l.len() ==> is_word_char(#[trigger] l[i]) && !is_ascii_upper(
        l[i],
    ));
    assert forall|i: int| 0 <= i < t.len() implies is_word_char(#[trigger] t[i])
        && !is_ascii_upper(t[i]) by {
        if t != l {
            if i >= 6 {
                assert(t[i] == l[i - 6]);
            }
        }
    }
    lemma_non_word_replaced_keeps_words(t);
    assert(ascii_lower_seq(t) =~= t);
    if t.len() > 0 {
        assert(!is_ascii_digit(t[0]));
    }
}

/// How a snake-case name is pluralized, by its last letters: a name ending
/// in `s` is kept; a final `y` becomes `ies`; `es` is added after `ch`,
/// `sh`, `x` or `z`; after any other ending (and to the empty name) exactly
/// one `s` is added.
pub proof fn lemma_plural_endings(t: Seq<char>)
    ensures
        t.len() > 0 && t.last() == 's' ==> pluralized(t) == t,
        t.len() > 0 && t.last() == 'y' ==> pluralized(t) == t.drop_last() + seq!['i', 'e', 's'],
        t.len() > 0 && (t.last() == 'x' || t.last() == 'z' || (t.len() > 1 && t.last() == 'h'
            && (t[t.len() - 2] == 'c' || t[t.len() - 2] == 's'))) ==> pluralized(t) == t + seq![
            'e',
            's',
        ],
        !(t.len() > 0 && (t.last() == 's' || t.last() == 'y' || t.last() == 'x' || t.last() == 'z'
            || (t.len() > 1 && t.last() == 'h' && (t[t.len() - 2] == 'c' || t[t.len() - 2]
            == 's')))) ==> pluralized(t) == t + seq!['s'],
{
    if t.len() > 0 {
        assert(ends_with_seq(t, seq![t.last()])) by {
            assert(t.skip(t.len() - 1) =~= seq![t.last()]);
        }
        if t.len() > 1 {
            assert(t.skip(t.len() - 2) =~= seq![t[t.len() - 2], t.last()]);
        }
        let ch = ends_with_seq(t, seq!['c', 'h']);
        let sh = ends_with_seq(t, seq!['s', 'h']);
        if ch || sh {
            assert(t.skip(t.len() - 2)[1] == t.last());
            assert(t.skip(t.len() - 2)[0] == t[t.len() - 2]);
        }
        if ends_with_seq(t, seq!['s']) {
            assert(t.skip(t.len() - 1)[0] == t.last());
        }
        if ends_with_seq(t, seq!['y']) {
            assert(t.skip(t.len() - 1)[0] == t.last());
        }
        if ends_with_seq(t, seq!['x']) {
            assert(t.skip(t.len() - 1)[0] == t.last());
        }
        if ends_with_seq(t, seq!['z']) {
            assert(t.skip(t.len() - 1)[0] == t.last());
        }
    }
}

/// The column type of a field agrees with its Rust type: integers and
/// booleans (`i32`, `i64`, `bool`) are `INTEGER` columns, floats (`f64`)
/// `REAL` columns, and text and times (`String`, `DateTime<Utc>`) `TEXT`
/// columns.
pub proof fn lemma_column_type_matches_rust_type(ty: Seq<char>)
    ensures
        rust_type_of(ty) == "bool"@ || rust_type_of(ty) == "i32"@ || rust_type_of(ty) == "i64"@
            <==> sql_type_of(ty) == "INTEGER"@,
        rust_type_of(ty) == "f64"@ <==> sql_type_of(ty) == "REAL"@,
        rust_type_of(ty) == "String"@ || rust_type_of(ty) == "DateTime<Utc>"@ <==> sql_type_of(ty)
            == "TEXT"@,
{
    reveal_strlit("String");
    reveal_strlit("bool");
    reveal_strlit("i32");
    reveal_strlit("i64");
    reveal_strlit("f64");
    reveal_strlit("DateTime<Utc>");
    reveal_strlit("TEXT");
    reveal_strlit("INTEGER");
    reveal_strlit("REAL");
    reveal_strlit("string");
    reveal_strlit("text");
    reveal_strlit("int");
    reveal_strlit("bigint");
    reveal_strlit("float");
    reveal_strlit("datetime");
    let names: Seq<Seq<char>> = seq![
        "String"@,
        "bool"@,
        "i32"@,
        "i64"@,
        "f64"@,
        "DateTime<Utc>"@,
        "TEXT"@,
        "INTEGER"@,
        "REAL"@,
        "string"@,
        "text"@,
        "int"@,
        "bigint"@,
        "float"@,
        "datetime"@,
    ];
    assert forall|i: int, j: int| 0 <= i < j < names.len() implies names[i] != names[j] by {
        if names[i].len() == names[j].len() {
            assert(names[i][0] != names[j][0] || names[i][1] != names[j][1] || names[i][2]
                != names[j][2]);
        }
    }
    assert(names[0] == "String"@ && names[1] == "bool"@ && names[2] == "i32"@ && names[3] == "i64"@
        && names[4] == "f64"@ && names[5] == "DateTime<Utc>"@ && names[6] == "TEXT"@ && names[7]
        == "INTEGER"@ && names[8] == "REAL"@ && names[9] == "string"@ && names[10] == "text"@
        && names[11] == "int"@ && names[12] == "bigint"@ && names[13] == "float"@ && names[14]
        == "datetime"@);
    assert("datetime"@ != "string"@ && "datetime"@ != "text"@ && "datetime"@ != "bool"@
        && "datetime"@ != "int"@ && "datetime"@ != "bigint"@ && "datetime"@ != "float"@);
    assert("float"@ != "string"@ && "float"@ != "text"@ && "float"@ != "bool"@ && "float"@
        != "int"@ && "float"@ != "bigint"@ && "float"@ != "datetime"@);
    assert("bigint"@ != "string"@ && "bigint"@ != "text"@ && "bigint"@ != "bool"@ && "bigint"@
        != "int"@ && "bool"@ != "string"@ && "bool"@ != "text"@ && "int"@ != "string"@ && "int"@
        != "text"@ && "int"@ != "bool"@);
    assert("String"@ != "bool"@ && "String"@ != "i32"@ && "String"@ != "i64"@ && "String"@
        != "f64"@ && "DateTime<Utc>"@ != "bool"@ && "DateTime<Utc>"@ != "i32"@
        && "DateTime<Utc>"@ != "i64"@ && "DateTime<Utc>"@ != "f64"@ && "f64"@ != "bool"@
        && "f64"@ != "i32"@ && "f64"@ != "i64"@);
    assert("TEXT"@ != "INTEGER"@ && "TEXT"@ != "REAL"@ && "REAL"@ != "INTEGER"@);
}

/// A CRUD plan writes its model and its migration from the same field
/// specifications: for every specification with a `:`, the model written
/// has the field `pub name: Type,` and the migration written has a column
/// `name definition,` of the same name.
pub proof fn lemma_every_model_field_has_a_column(
    name: Seq<char>,
    fields: Seq<Seq<char>>,
    no_web: bool,
    stamp: Seq<char>,
    i: int,
)
    requires
        0 <= i < fields.len(),
        fields[i].contains(':'),
    ensures
        ({
            let acts = planned_actions(name, fields, true, no_web, stamp);
            let (n, t) = field_decl(fields[i])->0;
            let (m, c) = sql_field_decl(fields[i])->0;
            &&& field_decl(fields[i]) is Some
            &&& sql_field_decl(fields[i]) is Some
            &&& m == n
            &&& exists|model: Seq<char>, migration: Seq<char>|
                #![trigger contains_seq(model, "    pub "@ + n + ": "@ + t + ",\n"@), contains_seq(migration, "    "@ + n + " "@ + c + ",\n"@)]
                acts.contains(FsStep::Write(domain_dir(name) + "/model.rs"@, model))
                && contains_seq(model, "    pub "@ + n + ": "@ + t + ",\n"@)
                && acts.contains(FsStep::Write(migration_file(name, stamp), migration))
                && contains_seq(migration, "    "@ + n + " "@ + c + ",\n"@)
        }),
{
    lemma_field_and_column_agree(fields[i]);
    crate::scaffold::lemma_model_has_field(name, fields, i);
    crate::scaffold::lemma_migration_has_column(name, fields, i);
    let acts = planned_actions(name, fields, true, no_web, stamp);
    let model = crate::scaffold::model_text(name, fields);
    let migration = crate::scaffold::migration_text(name, fields);
    assert(acts[5] == FsStep::Write(domain_dir(name) + "/model.rs"@, model));
    assert(acts[7] == FsStep::Write(migration_file(name, stamp), migration));
    assert(acts.contains(FsStep::Write(domain_dir(name) + "/model.rs"@, model)));
    assert(acts.contains(FsStep::Write(migration_file(name, stamp), migration)));
}

} // verus!
