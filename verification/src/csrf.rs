//! Cross-site request forgery protection by the double-submit cookie:
//! a state-changing request must echo the `csrf_token` cookie in the
//! `X-CSRF-Token` header.
use vstd::prelude::*;
use axum_extra::extract::cookie::{Cookie, SameSite};
use crate::text::{
    chars_of, equals_str, is_hex_lower_char, is_unicode_whitespace, split_char, split_on,
    split_once, string_of, views,
};

verus! {

/// Leaves a handler as it is; marks a route whose requests need no token.
pub fn skip<H>(handler: H) -> (r: H)
    ensures
        r == handler,
{
    handler
}

/// The name of the cookie that holds the token.
pub open spec fn token_cookie_name() -> Seq<char> {
    "csrf_token"@
}

/// The methods that change state: `POST`, `PUT`, `PATCH` and `DELETE`.
pub open spec fn is_unsafe_method(method: Seq<char>) -> bool {
    method == "POST"@ || method == "PUT"@ || method == "PATCH"@ || method == "DELETE"@
}

/// Whether a request with this method must carry the token.
pub fn unsafe_method(method: &str) -> (b: bool)
    ensures
        b == is_unsafe_method(method@),
{
    let m = chars_of(method);
    equals_str(&m, "POST") || equals_str(&m, "PUT") || equals_str(&m, "PATCH") || equals_str(
        &m,
        "DELETE",
    )
}

// ---------------------------------------------------------------------------
// Cookies
// ---------------------------------------------------------------------------
/// What `Cookie::parse_encoded` of the cookie crate gives for one
/// `name=value` pair: the name and value, both trimmed and then
/// percent-decoded, or nothing where the pair has no `=`, the name is empty,
/// or a decoded part is not UTF-8.
pub uninterp spec fn parsed_cookie(pair: Seq<char>) -> Option<(Seq<char>, Seq<char>)>;

/// A `name=value` pair that needs no trimming or decoding and has no
/// attributes: no whitespace, no `%`, no `;`, and a non-empty name before
/// its first `=`.
pub open spec fn is_plain_pair(pair: Seq<char>) -> bool {
    &&& !pair.contains('%')
    &&& !pair.contains(';')
    &&& forall|i: int| 0 <= i < pair.len() ==> !is_unicode_whitespace(#[trigger] pair[i])
    &&& split_once(pair, '=') matches Some((n, _)) && n.len() > 0
}

/// The views of an optional name and value.
pub open spec fn opt_pair_view(o: Option<(String, String)>) -> Option<(Seq<char>, Seq<char>)> {
    match o {
        Some((n, v)) => Some((n@, v@)),
        None => None,
    }
}

/// `Cookie::parse_encoded` of the cookie crate (as re-exported by
/// axum-extra), giving the name and value of the parsed cookie.
///
/// Where the pair holds no whitespace, no `%` and no `;` and its first `=`
/// follows a non-empty name, nothing is trimmed, decoded or read as an
/// attribute: the cookie is the text before and after that `=`.
#[verifier::external_body]
fn parse_cookie_pair(pair: &str) -> (r: Option<(String, String)>)
    ensures
        opt_pair_view(r) == parsed_cookie(pair@),
        is_plain_pair(pair@) ==> opt_pair_view(r) == split_once(pair@, '='),
{
    match Cookie::parse_encoded(pair.to_owned()) {
        Ok(c) => Some((c.name().to_owned(), c.value().to_owned())),
        Err(_) => None,
    }
}

/// The `name=value` pairs of the `Cookie` headers, in order: each header
/// split at `;`.
pub open spec fn cookie_pairs(headers: Seq<Seq<char>>) -> Seq<Seq<char>>
    decreases headers.len(),
{
    if headers.len() == 0 {
        Seq::<Seq<char>>::empty()
    } else {
        cookie_pairs(headers.drop_last()) + split_char(headers.last(), ';')
    }
}

/// The value of the last parsed cookie named `name` (a cookie jar keeps
/// the last cookie of each name).
pub open spec fn last_named(parsed: Seq<Option<(Seq<char>, Seq<char>)>>, name: Seq<char>) -> Option<
    Seq<char>,
>
    decreases parsed.len(),
{
    if parsed.len() == 0 {
        None
    } else {
        match parsed.last() {
            Some((n, v)) => if n == name {
                Some(v)
            } else {
                last_named(parsed.drop_last(), name)
            },
            None => last_named(parsed.drop_last(), name),
        }
    }
}

/// What the cookie crate parses each pair into.
pub open spec fn parsed_pairs(pairs: Seq<Seq<char>>) -> Seq<Option<(Seq<char>, Seq<char>)>> {
    pairs.map_values(|p: Seq<char>| parsed_cookie(p))
}

/// Every pair is plain.
pub open spec fn all_plain(pairs: Seq<Seq<char>>) -> bool {
    forall|k: int| 0 <= k < pairs.len() ==> is_plain_pair(#[trigger] pairs[k])
}

/// Plain pairs cut at their first `=`.
pub open spec fn plain_parsed(pairs: Seq<Seq<char>>) -> Seq<Option<(Seq<char>, Seq<char>)>> {
    pairs.map_values(|p: Seq<char>| split_once(p, '='))
}

/// The value of the cookie `name` in the `Cookie` headers of a request.
pub open spec fn request_cookie(headers: Seq<Seq<char>>, name: Seq<char>) -> Option<Seq<char>> {
    last_named(parsed_pairs(cookie_pairs(headers)), name)
}

pub open spec fn string_views(v: Seq<String>) -> Seq<Seq<char>> {
    v.map_values(|x: String| x@)
}

/// The views of parsed cookies.
pub open spec fn parsed_views(v: Seq<Option<(String, String)>>) -> Seq<
    Option<(Seq<char>, Seq<char>)>,
> {
    v.map_values(|x: Option<(String, String)>| opt_pair_view(x))
}

/// Every `name=value` pair of the `Cookie` header values, parsed.
pub fn parse_cookie_headers(headers: &Vec<String>) -> (r: Vec<Option<(String, String)>>)
    ensures
        parsed_views(r@) == parsed_pairs(cookie_pairs(string_views(headers@))),
        all_plain(cookie_pairs(string_views(headers@))) ==> parsed_views(r@) == plain_parsed(
            cookie_pairs(string_views(headers@)),
        ),
{
    let ghost hs = string_views(headers@);
    let mut out: Vec<Option<(String, String)>> = Vec::new();
    let mut i: usize = 0;
    proof {
        assert(hs.take(0) =~= Seq::<Seq<char>>::empty());
        assert(parsed_views(out@) =~= parsed_pairs(cookie_pairs(hs.take(0))));
    }
    while i < headers.len()
        invariant
            hs == string_views(headers@),
            i <= headers@.len(),
            parsed_views(out@) == parsed_pairs(cookie_pairs(hs.take(i as int))),
            forall|j: int|
                0 <= j < out@.len() && is_plain_pair(#[trigger] cookie_pairs(hs.take(i as int))[j])
                    ==> parsed_views(out@)[j] == split_once(cookie_pairs(hs.take(i as int))[j], '='),
        decreases headers@.len() - i,
    {
        let hv = chars_of(headers[i].as_str());
        let pieces = split_on(&hv, ';');
        let ghost before = cookie_pairs(hs.take(i as int));
        let ghost ps = views(pieces@);
        proof {
            assert(hs.take(i + 1).drop_last() =~= hs.take(i as int));
            assert(hs.take(i + 1).last() == hv@);
            assert(cookie_pairs(hs.take(i + 1)) == before + ps);
            assert(before + ps.take(0) =~= before);
        }
        let mut k: usize = 0;
        while k < pieces.len()
            invariant
                ps == views(pieces@),
                k <= pieces@.len(),
                parsed_views(out@) == parsed_pairs(before + ps.take(k as int)),
                forall|j: int|
                    0 <= j < out@.len() && is_plain_pair(#[trigger] (before + ps.take(k as int))[j])
                        ==> parsed_views(out@)[j] == split_once((before + ps.take(k as int))[j], '='),
            decreases pieces@.len() - k,
        {
            let pair = string_of(&pieces[k]);
            let parsed = parse_cookie_pair(pair.as_str());
            proof {
                assert(pair@ == ps[k as int]);
                let expect = parsed_cookie(ps[k as int]);
                assert(match parsed {
                    Some((n, v)) => Some((n@, v@)),
                    None => None,
                } == expect);
            }
            let ghost prev = out@;
            out.push(parsed);
            proof {
                assert(out@ =~= prev.push(out@.last()));
                assert(parsed_views(out@) =~= parsed_views(prev).push(parsed_cookie(ps[k as int])));
                let all = before + ps.take(k + 1);
                assert(all =~= (before + ps.take(k as int)).push(ps[k as int]));
                assert forall|j: int|
                    0 <= j < out@.len() && is_plain_pair(#[trigger] all[j]) implies parsed_views(
                        out@,
                    )[j] == split_once(all[j], '=') by {
                    if j < prev.len() {
                        assert(all[j] == (before + ps.take(k as int))[j]);
                        assert(parsed_views(out@)[j] == parsed_views(prev)[j]);
                    }
                }
                assert(before + ps.take(k + 1) =~= (before + ps.take(k as int)).push(ps[k as int]));
                assert(parsed_views(out@) =~= parsed_pairs(before + ps.take(k + 1)));
            }
            k += 1;
        }
        proof {
            assert(ps.take(pieces@.len() as int) =~= ps);
        }
        i += 1;
    }
    proof {
        assert(hs.take(headers@.len() as int) =~= hs);
        let all = cookie_pairs(hs);
        if all_plain(all) {
            assert(parsed_views(out@) =~= plain_parsed(all)) by {
                assert forall|j: int| 0 <= j < all.len() implies parsed_views(out@)[j]
                    == plain_parsed(all)[j] by {
                    assert(is_plain_pair(all[j]));
                }
            }
        }
    }
    out
}

/// The value of the last parsed cookie named `name`.
pub fn last_named_value(parsed: &Vec<Option<(String, String)>>, name: &str) -> (r: Option<String>)
    ensures
        r matches Some(v) ==> last_named(parsed_views(parsed@), name@) == Some(v@),
        r is None ==> last_named(parsed_views(parsed@), name@) is None,
{
    let name_v = chars_of(name);
    let ghost pv = parsed_views(parsed@);
    let mut found: Option<String> = None;
    let mut i: usize = 0;
    proof {
        assert(pv.take(0) =~= Seq::<Option<(Seq<char>, Seq<char>)>>::empty());
    }
    while i < parsed.len()
        invariant
            pv == parsed_views(parsed@),
            name_v@ == name@,
            i <= parsed@.len(),
            found matches Some(v) ==> last_named(pv.take(i as int), name@) == Some(v@),
            found is None ==> last_named(pv.take(i as int), name@) is None,
        decreases parsed@.len() - i,
    {
        proof {
            assert(pv.take(i + 1).drop_last() =~= pv.take(i as int));
            assert(pv.take(i + 1).last() == pv[i as int]);
        }
        match &parsed[i] {
            Some((n, v)) => {
                let nv = chars_of(n.as_str());
                if same_chars(&nv, &name_v) {
                    found = Some(v.clone());
                }
            },
            None => {},
        }
        i += 1;
    }
    proof {
        assert(pv.take(parsed@.len() as int) =~= pv);
    }
    found
}

/// The value of the cookie `name` in the `Cookie` header values of a
/// request (those that are visible ASCII).
pub fn cookie_value(headers: &Vec<String>, name: &str) -> (r: Option<String>)
    ensures
        opt_view(r) == request_cookie(string_views(headers@), name@),
        all_plain(cookie_pairs(string_views(headers@))) ==> opt_view(r) == last_named(
            plain_parsed(cookie_pairs(string_views(headers@))),
            name@,
        ),
{
    let parsed = parse_cookie_headers(headers);
    let r = last_named_value(&parsed, name);
    proof {
        assert(opt_view(r) == last_named(parsed_views(parsed@), name@));
    }
    r
}

fn same_chars(a: &Vec<char>, b: &Vec<char>) -> (r: bool)
    ensures
        r == (a@ == b@),
{
    if a.len() != b.len() {
        return false;
    }
    let mut i: usize = 0;
    while i < a.len()
        invariant
            a@.len() == b@.len(),
            i <= a@.len(),
            forall|j: int| 0 <= j < i ==> a@[j] == b@[j],
        decreases a@.len() - i,
    {
        if a[i] != b[i] {
            return false;
        }
        i += 1;
    }
    proof {
        assert(a@ =~= b@);
    }
    true
}

/// The `Set-Cookie` value that the cookie crate writes for a cookie with a
/// path, `SameSite=Lax`, and `HttpOnly` where asked.
pub open spec fn lax_cookie_text(name: Seq<char>, value: Seq<char>, path: Seq<char>, http_only: bool) -> Seq<
    char,
> {
    name + "="@ + value + (if http_only {
        "; HttpOnly"@
    } else {
        Seq::<char>::empty()
    }) + "; SameSite=Lax"@ + "; Path="@ + path
}

/// `Cookie::build((name, value)).path(path).same_site(SameSite::Lax)
/// .http_only(http_only).build().to_string()` of the cookie crate (as
/// re-exported by axum-extra). Its `Display` writes `name=value`, then
/// `; HttpOnly` where the flag is set, then `; SameSite=Lax`, then
/// `; Path=path`; it percent-encodes nothing.
#[verifier::external_body]
fn build_lax_cookie(name: &str, value: &str, path: &str, http_only: bool) -> (r: String)
    ensures
        r@ == lax_cookie_text(name@, value@, path@, http_only),
{
    Cookie::build((name.to_owned(), value.to_owned())).path(path.to_owned()).same_site(
        SameSite::Lax,
    ).http_only(http_only).build().to_string()
}

/// The `Set-Cookie` value that hands the token to the browser:
/// `csrf_token=<token>; HttpOnly; SameSite=Lax; Path=/`.
pub fn token_cookie(token: &str) -> (r: String)
    ensures
        r@ == lax_cookie_text(token_cookie_name(), token@, "/"@, true),
{
    build_lax_cookie("csrf_token", token, "/", true)
}

/// Whether the cookie crate percent-encodes byte `b` of a cookie name or
/// value: control bytes, bytes outside ASCII, and the bytes of
/// `` "<>`#?{}/:;=@[\]^|%(),`` and the space.
pub open spec fn cookie_encodes_byte(b: u8) -> bool {
    ||| b < 0x20
    ||| b >= 0x7F
    ||| b == 0x20 || b == 0x22 || b == 0x3C || b == 0x3E || b == 0x60
    ||| b == 0x23 || b == 0x3F || b == 0x7B || b == 0x7D
    ||| b == 0x2F || b == 0x3A || b == 0x3B || b == 0x3D || b == 0x40 || b == 0x5B
    ||| b == 0x5C || b == 0x5D || b == 0x5E || b == 0x7C || b == 0x25
    ||| b == 0x28 || b == 0x29 || b == 0x2C
}

/// An uppercase hexadecimal digit, for `n < 16`.
pub open spec fn upper_hex_digit(n: int) -> char {
    if n < 10 {
        (('0' as u32) + n) as char
    } else {
        (('A' as u32) + n - 10) as char
    }
}

/// How one byte of a cookie name or value is written: `%` and two
/// uppercase hexadecimal digits where it is encoded, else the byte itself
/// (then an ASCII character).
pub open spec fn cookie_encoded_byte(b: u8) -> Seq<char> {
    if cookie_encodes_byte(b) {
        seq!['%', upper_hex_digit((b / 16) as int), upper_hex_digit((b % 16) as int)]
    } else {
        seq![b as char]
    }
}

/// The percent-encoding of a byte sequence, byte by byte.
pub open spec fn cookie_encoded_bytes(bytes: Seq<u8>) -> Seq<char>
    decreases bytes.len(),
{
    if bytes.len() == 0 {
        Seq::<char>::empty()
    } else {
        cookie_encoded_bytes(bytes.drop_last()) + cookie_encoded_byte(bytes.last())
    }
}

/// The percent-encoding of a cookie name or value: of its UTF-8 bytes.
pub open spec fn cookie_encoded(s: Seq<char>) -> Seq<char> {
    cookie_encoded_bytes(vstd::utf8::encode_utf8(s))
}

/// The `Set-Cookie` value that axum-extra's `CookieJar` writes for an
/// `HttpOnly` cookie with a path and no other attribute: the name and value
/// percent-encoded, then `; HttpOnly`, then `; Path=path`.
pub open spec fn jar_cookie_text(name: Seq<char>, value: Seq<char>, path: Seq<char>) -> Seq<char> {
    cookie_encoded(name) + "="@ + cookie_encoded(value) + "; HttpOnly"@ + "; Path="@ + path
}

/// `Cookie::build((name, value)).path(path).http_only(true).build()
/// .encoded().to_string()` of the cookie crate (with its `percent-encode`
/// feature, as axum-extra builds it): what a `CookieJar` puts in
/// `Set-Cookie`. The encoded `Display` writes the name and the value
/// percent-encoded with the cookie set (control and non-ASCII bytes and
/// `` "<>`#?{}/:;=@[\]^|%(),`` and the space, as `%XX` in uppercase
/// hexadecimal), `=` between them, then `; HttpOnly` and `; Path=path`; no
/// `SameSite` or `Secure`, since neither is set.
#[verifier::external_body]
fn build_jar_cookie(name: &str, value: &str, path: &str) -> (r: String)
    ensures
        r@ == jar_cookie_text(name@, value@, path@),
{
    Cookie::build((name.to_owned(), value.to_owned())).path(path.to_owned()).http_only(true).build().encoded().to_string()
}

/// The `Set-Cookie` values that login hands out through the cookie jar:
/// the session cookie holding the session id, then the CSRF cookie holding
/// its token, both `HttpOnly` for the whole site. The jar keeps one cookie
/// per name, the one added last, so where the session cookie is itself
/// named `csrf_token` only the CSRF cookie is sent. (The jar sends its
/// cookies in no fixed order; this order is one of its orders.)
pub open spec fn login_cookie_texts(session_cookie_name: Seq<char>, session_id: Seq<char>, csrf_token: Seq<char>) -> Seq<
    Seq<char>,
> {
    let csrf = jar_cookie_text(token_cookie_name(), csrf_token, "/"@);
    if session_cookie_name == token_cookie_name() {
        seq![csrf]
    } else {
        seq![jar_cookie_text(session_cookie_name, session_id, "/"@), csrf]
    }
}

/// The `Set-Cookie` values that open a session at login.
pub fn login_cookies(session_cookie_name: &str, session_id: &str, csrf_token: &str) -> (r: Vec<
    String,
>)
    ensures
        r@.map_values(|c: String| c@) == login_cookie_texts(
            session_cookie_name@,
            session_id@,
            csrf_token@,
        ),
{
    let mut r: Vec<String> = Vec::new();
    let same_name = equals_str(&chars_of(session_cookie_name), "csrf_token");
    proof {
        assert("csrf_token"@ == token_cookie_name());
    }
    if !same_name {
        r.push(build_jar_cookie(session_cookie_name, session_id, "/"));
    }
    r.push(build_jar_cookie("csrf_token", csrf_token, "/"));
    proof {
        assert(r@.map_values(|c: String| c@) =~= login_cookie_texts(
            session_cookie_name@,
            session_id@,
            csrf_token@,
        ));
    }
    r
}

// ---------------------------------------------------------------------------
// Fresh tokens
// ---------------------------------------------------------------------------
/// The text of a random (version 4) UUID: 32 lowercase hexadecimal digits in
/// groups of 8-4-4-4-12 joined by `-`, the version digit `4` and a variant
/// digit among `8`, `9`, `a`, `b`.
pub open spec fn is_uuid_v4_text(s: Seq<char>) -> bool {
    &&& s.len() == 36
    &&& forall|i: int|
        0 <= i < 36 ==> if i == 8 || i == 13 || i == 18 || i == 23 {
            #[trigger] s[i] == '-'
        } else {
            is_hex_lower_char(s[i])
        }
    &&& s[14] == '4'
    &&& (s[19] == '8' || s[19] == '9' || s[19] == 'a' || s[19] == 'b')
}

/// `Uuid::new_v4().to_string()` of the uuid crate: a random UUID in its
/// hyphenated lowercase form. Only its shape is stated. It panics only
/// where the operating system has no randomness to give.
#[verifier::external_body]
pub(crate) fn new_uuid_v4() -> (r: String)
    ensures
        is_uuid_v4_text(r@),
{
    uuid::Uuid::new_v4().to_string()
}

// ---------------------------------------------------------------------------
// The check
// ---------------------------------------------------------------------------
/// Whether a request may go on: a request with a state-changing method
/// needs a token cookie and a header that equals it.
pub open spec fn csrf_allows(
    method: Seq<char>,
    cookie_token: Option<Seq<char>>,
    header_token: Option<Seq<char>>,
) -> bool {
    !is_unsafe_method(method) || (cookie_token is Some && header_token == cookie_token)
}

/// Whether a request may go on, given the method, the token cookie and the
/// `X-CSRF-Token` header.
pub fn csrf_allowed(method: &str, cookie_token: &Option<String>, header_token: &Option<String>) -> (b:
    bool)
    ensures
        b == csrf_allows(
            method@,
            match cookie_token {
                Some(t) => Some(t@),
                None => None,
            },
            match header_token {
                Some(t) => Some(t@),
                None => None,
            },
        ),
{
    if !unsafe_method(method) {
        return true;
    }
    match (cookie_token, header_token) {
        (Some(c), Some(h)) => {
            let cv = chars_of(c.as_str());
            let hv = chars_of(h.as_str());
            same_chars(&cv, &hv)
        },
        _ => false,
    }
}

/// Why a request is turned away.
pub enum CsrfRejection {
    /// A state-changing request without a matching token: `403 Forbidden`.
    Forbidden,
}

/// The views of an optional string.
pub open spec fn opt_view(o: Option<String>) -> Option<Seq<char>> {
    match o {
        Some(t) => Some(t@),
        None => None,
    }
}

/// The check made before a request reaches its handler: with the `Cookie`
/// header values, the method and the `X-CSRF-Token` header value, either
/// the request is turned away, or it goes on with the token to hand back:
/// the cookie's where there is one, else a fresh random one.
pub fn check_request(method: &str, cookie_headers: &Vec<String>, header_token: Option<String>) -> (r:
    Result<String, CsrfRejection>)
    ensures
        ({
            let cookie = request_cookie(string_views(cookie_headers@), token_cookie_name());
            &&& (r is Ok <==> csrf_allows(method@, cookie, opt_view(header_token)))
            &&& r matches Ok(t) ==> match cookie {
                Some(c) => t@ == c,
                None => is_uuid_v4_text(t@),
            }
            &&& all_plain(cookie_pairs(string_views(cookie_headers@))) ==> cookie == last_named(
                plain_parsed(cookie_pairs(string_views(cookie_headers@))),
                token_cookie_name(),
            )
        }),
{
    let cookie_token = cookie_value(cookie_headers, "csrf_token");
    if !csrf_allowed(method, &cookie_token, &header_token) {
        return Err(CsrfRejection::Forbidden);
    }
    match cookie_token {
        Some(t) => Ok(t),
        None => Ok(new_uuid_v4()),
    }
}

/// The `Set-Cookie` value to add to a response: the token cookie, unless the
/// response sets a cookie already.
pub fn response_cookie(response_sets_cookie: bool, token: &str) -> (r: Option<String>)
    ensures
        response_sets_cookie ==> r is None,
        !response_sets_cookie ==> (r matches Some(c) && c@ == lax_cookie_text(
            token_cookie_name(),
            token@,
            "/"@,
            true,
        )),
{
    if response_sets_cookie {
        None
    } else {
        Some(token_cookie(token))
    }
}

/// The token for the pages of a request: the cookie's, or a fresh one.
pub fn page_token(cookie_headers: &Vec<String>) -> (r: String)
    ensures
        match request_cookie(string_views(cookie_headers@), token_cookie_name()) {
            Some(c) => r@ == c,
            None => is_uuid_v4_text(r@),
        },
{
    match cookie_value(cookie_headers, "csrf_token") {
        Some(t) => t,
        None => new_uuid_v4(),
    }
}

/// The double-submit rule: reading requests always pass; a state-changing
/// request passes exactly when it carries the token cookie and echoes it in
/// the header.
pub proof fn lemma_csrf_rule(
    method: Seq<char>,
    cookie: Option<Seq<char>>,
    header: Option<Seq<char>>,
)
    ensures
        !is_unsafe_method(method) ==> csrf_allows(method, cookie, header),
        is_unsafe_method(method) && cookie is None ==> !csrf_allows(method, cookie, header),
        is_unsafe_method(method) && header != cookie ==> !csrf_allows(method, cookie, header),
        cookie is Some && header == cookie ==> csrf_allows(method, cookie, header),
{
}

/// What a browser sends back of the token cookie: `csrf_token=<token>`.
pub open spec fn token_cookie_pair(token: Seq<char>) -> Seq<char> {
    token_cookie_name() + "="@ + token
}

/// A browser that returns the token cookie that the middleware handed out
/// (`csrf_token=<token>`) and echoes the token in the header passes the
/// check and keeps its token: that cookie header is plain, and read as
/// plain pairs it gives the token back.
pub proof fn lemma_echoed_token_passes(token: Seq<char>, method: Seq<char>)
    requires
        is_uuid_v4_text(token),
    ensures
        all_plain(cookie_pairs(seq![token_cookie_pair(token)])),
        last_named(plain_parsed(cookie_pairs(seq![token_cookie_pair(token)])), token_cookie_name())
            == Some(token),
        csrf_allows(method, Some(token), Some(token)),
{
    reveal_strlit("csrf_token");
    reveal_strlit("=");
    let name = token_cookie_name();
    let h = token_cookie_pair(token);
    assert(name.len() == 10);
    assert(h.len() == 11 + token.len());
    assert forall|i: int| 0 <= i < token.len() implies #[trigger] h[11 + i] == token[i] by {}
    assert(forall|i: int|
        0 <= i < token.len() ==> token[i] != ';' && token[i] != '%' && token[i] != '='
            && !is_unicode_whitespace(#[trigger] token[i]));
    assert(forall|i: int|
        0 <= i < 11 ==> h[i] != ';' && h[i] != '%' && !is_unicode_whitespace(#[trigger] h[i]));
    assert(!h.contains(';')) by {
        if h.contains(';') {
            let j = choose|j: int| 0 <= j < h.len() && h[j] == ';';
            if j >= 11 {
                assert(h[11 + (j - 11)] == token[j - 11]);
            }
        }
    }
    crate::text::lemma_split_char_absent(h, ';');
    assert(seq![h].drop_last() =~= Seq::<Seq<char>>::empty());
    assert(seq![h].last() == h);
    assert(cookie_pairs(Seq::<Seq<char>>::empty()) == Seq::<Seq<char>>::empty());
    assert(cookie_pairs(seq![h]) == Seq::<Seq<char>>::empty() + split_char(h, ';'));
    assert(cookie_pairs(seq![h]) =~= seq![h]);
    assert(h[10] == '=');
    assert(forall|j: int| 0 <= j < 10 ==> h[j] != '=');
    crate::text::lemma_first_char(h, '=', 10);
    assert(h.take(10) =~= name);
    assert(h.skip(11) =~= token);
    assert(!h.contains('%')) by {
        if h.contains('%') {
            let j = choose|j: int| 0 <= j < h.len() && h[j] == '%';
            if j >= 11 {
                assert(h[11 + (j - 11)] == token[j - 11]);
            }
        }
    }
    assert forall|i: int| 0 <= i < h.len() implies !is_unicode_whitespace(#[trigger] h[i]) by {
        if i >= 11 {
            assert(h[11 + (i - 11)] == token[i - 11]);
        }
    }
    assert(is_plain_pair(h));
    assert(all_plain(seq![h]));
    assert(plain_parsed(seq![h]) =~= seq![Some((name, token))]);
    assert(seq![Some((name, token))].last() == Some((name, token)));
}

} // verus!
