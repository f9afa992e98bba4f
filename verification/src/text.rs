//! Character-level string toolkit shared by the rest of the library.
//!
//! Every operation works on the `Seq<char>` view of a string, so contracts
//! elsewhere can be phrased over plain sequences.
use vstd::prelude::*;

verus! {

/// `String::push` of std: appends one character.
#[verifier::external_body]
pub(crate) fn push_char(s: &mut String, c: char)
    ensures
        final(s)@ == old(s)@.push(c),
{
    s.push(c);
}

/// The characters of `s`, in order.
pub fn chars_of(s: &str) -> (v: Vec<char>)
    ensures
        v@ == s@,
{
    let mut v: Vec<char> = Vec::new();
    for c in it: s.chars()
        invariant
            it.seq() == s@,
            v@ == s@.take(it.index() as int),
    {
        v.push(c);
    }
    proof {
        assert(s@.take(s@.len() as int) =~= s@);
    }
    v
}

/// Appends the characters `v[from..to]` to `out`.
pub fn push_range(out: &mut String, v: &Vec<char>, from: usize, to: usize)
    requires
        from <= to <= v@.len(),
    ensures
        final(out)@ == old(out)@ + v@.subrange(from as int, to as int),
{
    let mut i = from;
    while i < to
        invariant
            from <= i <= to <= v@.len(),
            out@ == old(out)@ + v@.subrange(from as int, i as int),
        decreases to - i,
    {
        push_char(out, v[i]);
        proof {
            assert(v@.subrange(from as int, i + 1) =~= v@.subrange(from as int, i as int).push(
                v@[i as int],
            ));
        }
        i += 1;
    }
}

/// A `String` holding exactly the characters of `v`.
pub fn string_of(v: &Vec<char>) -> (s: String)
    ensures
        s@ == v@,
{
    let mut s = String::new();
    push_range(&mut s, v, 0, v.len());
    proof {
        assert(v@.subrange(0, v@.len() as int) =~= v@);
    }
    s
}

/// Appends `other` to `out`.
pub fn push_str(out: &mut String, other: &str)
    ensures
        final(out)@ == old(out)@ + other@,
{
    out.append(other);
}

// ---------------------------------------------------------------------------
// Character classes
// ---------------------------------------------------------------------------
pub open spec fn is_ascii_digit(c: char) -> bool {
    '0' <= c && c <= '9'
}

pub open spec fn is_ascii_upper(c: char) -> bool {
    'A' <= c && c <= 'Z'
}

pub open spec fn is_ascii_lower(c: char) -> bool {
    'a' <= c && c <= 'z'
}

pub open spec fn is_ascii_alnum(c: char) -> bool {
    is_ascii_digit(c) || is_ascii_upper(c) || is_ascii_lower(c)
}

/// ASCII lower-casing of one character; every other character is kept.
pub open spec fn ascii_lower(c: char) -> char {
    if is_ascii_upper(c) {
        ((c as u32) + 32) as char
    } else {
        c
    }
}

/// ASCII lower-casing of a whole sequence.
pub open spec fn ascii_lower_seq(s: Seq<char>) -> Seq<char> {
    s.map_values(|c: char| ascii_lower(c))
}

/// Whether `c` is an ASCII character.
pub open spec fn is_ascii_char(c: char) -> bool {
    (c as u32) < 128
}

/// Whether every character of `s` is ASCII.
pub open spec fn is_ascii_text(s: Seq<char>) -> bool {
    forall|i: int| 0 <= i < s.len() ==> is_ascii_char(#[trigger] s[i])
}

/// ASCII upper-casing of one character; every other character is kept.
pub open spec fn ascii_upper_char(c: char) -> char {
    if is_ascii_lower(c) {
        ((c as u32) - 32) as char
    } else {
        c
    }
}

/// The whitespace of `char::is_whitespace`: the Unicode `White_Space` property.
pub open spec fn is_unicode_whitespace(c: char) -> bool {
    ||| c == '\t'
    ||| c == '\n'
    ||| c == '\u{0B}'
    ||| c == '\u{0C}'
    ||| c == '\r'
    ||| c == ' '
    ||| c == '\u{85}'
    ||| c == '\u{A0}'
    ||| c == '\u{1680}'
    ||| ('\u{2000}' <= c && c <= '\u{200A}')
    ||| c == '\u{2028}'
    ||| c == '\u{2029}'
    ||| c == '\u{202F}'
    ||| c == '\u{205F}'
    ||| c == '\u{3000}'
}

pub fn ascii_digit(c: char) -> (b: bool)
    ensures
        b == is_ascii_digit(c),
{
    '0' <= c && c <= '9'
}

pub fn ascii_upper(c: char) -> (b: bool)
    ensures
        b == is_ascii_upper(c),
{
    'A' <= c && c <= 'Z'
}

pub fn ascii_lower_case(c: char) -> (b: bool)
    ensures
        b == is_ascii_lower(c),
{
    'a' <= c && c <= 'z'
}

pub fn ascii_alnum(c: char) -> (b: bool)
    ensures
        b == is_ascii_alnum(c),
{
    ascii_digit(c) || ascii_upper(c) || ascii_lower_case(c)
}

pub fn to_ascii_lower(c: char) -> (r: char)
    ensures
        r == ascii_lower(c),
{
    if ascii_upper(c) {
        let b: u8 = c as u8;
        (b + 32) as char
    } else {
        c
    }
}

pub fn unicode_whitespace(c: char) -> (b: bool)
    ensures
        b == is_unicode_whitespace(c),
{
    c == '\t' || c == '\n' || c == '\u{0B}' || c == '\u{0C}' || c == '\r' || c == ' ' || c
        == '\u{85}' || c == '\u{A0}' || c == '\u{1680}' || ('\u{2000}' <= c && c <= '\u{200A}')
        || c == '\u{2028}' || c == '\u{2029}' || c == '\u{202F}' || c == '\u{205F}' || c
        == '\u{3000}'
}


// ---------------------------------------------------------------------------
// Searching and replacing
// ---------------------------------------------------------------------------
/// `pat` occurs in `s` starting at position `i`.
pub open spec fn occurs_at(s: Seq<char>, pat: Seq<char>, i: int) -> bool {
    0 <= i && i + pat.len() <= s.len() && s.subrange(i, i + pat.len()) == pat
}

/// `pat` occurs somewhere in `s` (the empty pattern occurs everywhere).
pub open spec fn contains_seq(s: Seq<char>, pat: Seq<char>) -> bool {
    exists|i: int| #[trigger] occurs_at(s, pat, i)
}

/// `to` between every two characters of `s` and at both ends: the
/// replacement of the empty pattern.
pub open spec fn interleaved(s: Seq<char>, to: Seq<char>) -> Seq<char>
    decreases s.len(),
{
    if s.len() == 0 {
        to
    } else {
        to + seq![s[0]] + interleaved(s.skip(1), to)
    }
}

/// `s` with every occurrence of `from` replaced by `to`, the occurrences
/// taken from the left and not overlapping (the semantics of `str::replace`).
pub open spec fn replaced(s: Seq<char>, from: Seq<char>, to: Seq<char>) -> Seq<char>
    decreases s.len(),
{
    if from.len() == 0 {
        interleaved(s, to)
    } else if s.len() == 0 {
        s
    } else if from.len() <= s.len() && s.take(from.len() as int) == from {
        to + replaced(s.skip(from.len() as int), from, to)
    } else {
        seq![s[0]] + replaced(s.skip(1), from, to)
    }
}

/// Whether `pat` occurs in `s` at position `i`.
pub fn matches_at(s: &Vec<char>, pat: &Vec<char>, i: usize) -> (b: bool)
    ensures
        b == occurs_at(s@, pat@, i as int),
{
    if i > s.len() || pat.len() > s.len() - i {
        return false;
    }
    let mut k: usize = 0;
    while k < pat.len()
        invariant
            i + pat.len() <= s.len(),
            k <= pat@.len(),
            forall|j: int| 0 <= j < k ==> s@[i + j] == pat@[j],
        decreases pat@.len() - k,
    {
        if s[i + k] != pat[k] {
            proof {
                assert(s@.subrange(i as int, i + pat@.len())[k as int] != pat@[k as int]);
            }
            return false;
        }
        k += 1;
    }
    proof {
        assert(s@.subrange(i as int, i + pat@.len()) =~= pat@);
    }
    true
}

/// Whether `pat` occurs in `s`.
pub fn contains_str(s: &str, pat: &str) -> (b: bool)
    ensures
        b == contains_seq(s@, pat@),
{
    let sv = chars_of(s);
    let pv = chars_of(pat);
    if pv.len() > sv.len() {
        proof {
            assert forall|i: int| !#[trigger] occurs_at(s@, pat@, i) by {}
        }
        return false;
    }
    let limit = sv.len() - pv.len();
    let mut i: usize = 0;
    while i < limit
        invariant
            sv@ == s@,
            pv@ == pat@,
            limit == sv@.len() - pv@.len(),
            i <= limit,
            forall|j: int| 0 <= j < i ==> !#[trigger] occurs_at(s@, pat@, j),
        decreases limit - i,
    {
        if matches_at(&sv, &pv, i) {
            return true;
        }
        i += 1;
    }
    if matches_at(&sv, &pv, limit) {
        return true;
    }
    proof {
        assert forall|j: int| !#[trigger] occurs_at(s@, pat@, j) by {
            if 0 <= j <= limit {
            }
        }
    }
    false
}

proof fn lemma_skip_parts(s: Seq<char>, i: int, m: int)
    requires
        0 <= i,
        0 <= m,
        i + m <= s.len(),
    ensures
        s.skip(i).take(m) == s.subrange(i, i + m),
        s.skip(i).skip(m) == s.skip(i + m),
{
    assert(s.skip(i).take(m) =~= s.subrange(i, i + m));
    assert(s.skip(i).skip(m) =~= s.skip(i + m));
}

/// `s` with every occurrence of `from` replaced by `to` (as `str::replace`).
pub fn replace_all(s: &str, from: &str, to: &str) -> (r: String)
    ensures
        r@ == replaced(s@, from@, to@),
{
    let sv = chars_of(s);
    let fv = chars_of(from);
    let n = sv.len();
    let m = fv.len();
    let mut out = String::new();
    let mut i: usize = 0;
    if m == 0 {
        push_str(&mut out, to);
        proof {
            assert(sv@.skip(0) =~= sv@);
        }
        while i < n
            invariant
                sv@ == s@,
                fv@ == from@,
                m == 0,
                n == sv@.len(),
                i <= n,
                out@ + interleaved(sv@.skip(i as int), to@).skip(to@.len() as int) == interleaved(
                    s@,
                    to@,
                ),
            decreases n - i,
        {
            let ghost rest = sv@.skip(i as int);
            let ghost tail = interleaved(sv@.skip(i + 1), to@);
            proof {
                assert(rest.skip(1) =~= sv@.skip(i + 1));
                lemma_interleaved_starts(sv@.skip(i + 1), to@);
                assert(tail =~= to@ + tail.skip(to@.len() as int));
                assert(interleaved(rest, to@).skip(to@.len() as int) =~= seq![rest[0]] + tail);
            }
            let ghost prev = out@;
            push_char(&mut out, sv[i]);
            push_str(&mut out, to);
            proof {
                assert(out@ + tail.skip(to@.len() as int) =~= prev + (seq![rest[0]] + tail));
            }
            i += 1;
        }
        proof {
            assert(sv@.skip(n as int) =~= Seq::<char>::empty());
            assert(interleaved(Seq::<char>::empty(), to@).skip(to@.len() as int) =~= Seq::<
                char,
            >::empty());
            assert(out@ + Seq::<char>::empty() =~= out@);
        }
        return out;
    }
    proof {
        assert(sv@.skip(0) =~= sv@);
    }
    while i < n
        invariant
            sv@ == s@,
            fv@ == from@,
            m == fv@.len(),
            m > 0,
            n == sv@.len(),
            i <= n,
            out@ + replaced(sv@.skip(i as int), from@, to@) == replaced(s@, from@, to@),
        decreases n - i,
    {
        let ghost rest = sv@.skip(i as int);
        if matches_at(&sv, &fv, i) {
            proof {
                lemma_skip_parts(sv@, i as int, m as int);
            }
            push_str(&mut out, to);
            i += m;
        } else {
            proof {
                if m <= rest.len() {
                    lemma_skip_parts(sv@, i as int, m as int);
                }
                assert(rest.skip(1) =~= sv@.skip(i + 1));
            }
            push_char(&mut out, sv[i]);
            i += 1;
        }
    }
    proof {
        assert(sv@.skip(n as int) =~= Seq::<char>::empty());
        assert(out@ + Seq::<char>::empty() =~= out@);
    }
    out
}

proof fn lemma_interleaved_starts(s: Seq<char>, to: Seq<char>)
    ensures
        interleaved(s, to).take(to.len() as int) == to,
        interleaved(s, to).len() >= to.len(),
    decreases s.len(),
{
    if s.len() == 0 {
        assert(to.take(to.len() as int) =~= to);
    } else {
        let rest = interleaved(s.skip(1), to);
        assert((to + seq![s[0]] + rest).take(to.len() as int) =~= to);
    }
}

// ---------------------------------------------------------------------------
// Finding
// ---------------------------------------------------------------------------
/// The first position at or after `i` where `pat` occurs in `s`.
pub open spec fn find_from(s: Seq<char>, pat: Seq<char>, i: int) -> Option<int>
    decreases s.len() + 1 - i,
{
    if i < 0 || i + pat.len() > s.len() {
        None
    } else if occurs_at(s, pat, i) {
        Some(i)
    } else {
        find_from(s, pat, i + 1)
    }
}

/// The first position where `pat` occurs in `s`.
pub open spec fn first_occurrence(s: Seq<char>, pat: Seq<char>) -> Option<int> {
    find_from(s, pat, 0)
}

/// The first position at or after `start` where `pat` occurs in `s`.
pub fn find(s: &Vec<char>, pat: &Vec<char>, start: usize) -> (r: Option<usize>)
    ensures
        r matches Some(k) ==> find_from(s@, pat@, start as int) == Some(k as int),
        r is None ==> find_from(s@, pat@, start as int) is None,
{
    if start > s.len() || pat.len() > s.len() - start {
        return None;
    }
    let limit = s.len() - pat.len();
    let mut i = start;
    while i < limit
        invariant
            start <= i <= limit,
            limit == s.len() - pat.len(),
            pat.len() <= s.len(),
            find_from(s@, pat@, start as int) == find_from(s@, pat@, i as int),
        decreases limit - i,
    {
        if matches_at(s, pat, i) {
            return Some(i);
        }
        i += 1;
    }
    if matches_at(s, pat, limit) {
        return Some(limit);
    }
    proof {
        assert(find_from(s@, pat@, limit + 1) is None);
    }
    None
}

// ---------------------------------------------------------------------------
// Splitting and trimming
// ---------------------------------------------------------------------------
/// The pieces of `s` between occurrences of `c` (as `str::split` with a
/// `char` pattern): one more piece than there are occurrences.
pub open spec fn split_char(s: Seq<char>, c: char) -> Seq<Seq<char>>
    decreases s.len(),
{
    if s.len() == 0 {
        seq![Seq::<char>::empty()]
    } else {
        let p = split_char(s.drop_last(), c);
        if s.last() == c {
            p.push(Seq::<char>::empty())
        } else {
            p.update(p.len() - 1, p.last().push(s.last()))
        }
    }
}

pub proof fn lemma_split_char_nonempty(s: Seq<char>, c: char)
    ensures
        split_char(s, c).len() >= 1,
    decreases s.len(),
{
    if s.len() > 0 {
        lemma_split_char_nonempty(s.drop_last(), c);
    }
}

/// The views of a sequence of character vectors.
pub open spec fn views(v: Seq<Vec<char>>) -> Seq<Seq<char>> {
    v.map_values(|x: Vec<char>| x@)
}

/// `s` split at every `c`.
pub fn split_on(s: &Vec<char>, c: char) -> (pieces: Vec<Vec<char>>)
    ensures
        views(pieces@) == split_char(s@, c),
{
    let mut pieces: Vec<Vec<char>> = Vec::new();
    let mut cur: Vec<char> = Vec::new();
    let mut i: usize = 0;
    proof {
        assert(s@.take(0) =~= Seq::<char>::empty());
        assert(views(pieces@).push(cur@) =~= split_char(s@.take(0), c));
    }
    while i < s.len()
        invariant
            i <= s@.len(),
            views(pieces@).push(cur@) == split_char(s@.take(i as int), c),
        decreases s@.len() - i,
    {
        let x = s[i];
        proof {
            assert(s@.take(i + 1).drop_last() =~= s@.take(i as int));
            lemma_split_char_nonempty(s@.take(i as int), c);
        }
        if x == c {
            let done = cur;
            pieces.push(done);
            cur = Vec::new();
            proof {
                assert(views(pieces@) =~= views(pieces@.drop_last()).push(done@));
                assert(views(pieces@).push(cur@) =~= split_char(s@.take(i + 1), c));
            }
        } else {
            cur.push(x);
            proof {
                assert(views(pieces@).push(cur@) =~= split_char(s@.take(i + 1), c));
            }
        }
        i += 1;
    }
    proof {
        assert(s@.take(s@.len() as int) =~= s@);
    }
    pieces.push(cur);
    proof {
        assert(views(pieces@) =~= views(pieces@.drop_last()).push(pieces@.last()@));
    }
    pieces
}

/// A class of characters that trimming strips.
pub enum TrimClass {
    /// One given character.
    Char(char),
    /// The Unicode `White_Space` characters.
    Whitespace,
}

impl TrimClass {
    pub open spec fn holds(self, c: char) -> bool {
        match self {
            TrimClass::Char(d) => c == d,
            TrimClass::Whitespace => is_unicode_whitespace(c),
        }
    }

    pub fn test(&self, c: char) -> (b: bool)
        ensures
            b == self.holds(c),
    {
        match self {
            TrimClass::Char(d) => c == *d,
            TrimClass::Whitespace => unicode_whitespace(c),
        }
    }
}

/// `s` without the characters of `class` at its end.
pub open spec fn trim_end(s: Seq<char>, class: TrimClass) -> Seq<char>
    decreases s.len(),
{
    if s.len() > 0 && class.holds(s.last()) {
        trim_end(s.drop_last(), class)
    } else {
        s
    }
}

/// `s` without the characters of `class` at its start.
pub open spec fn trim_start(s: Seq<char>, class: TrimClass) -> Seq<char>
    decreases s.len(),
{
    if s.len() > 0 && class.holds(s[0]) {
        trim_start(s.skip(1), class)
    } else {
        s
    }
}

/// `s` without the characters of `class` at either end.
pub open spec fn trim_both(s: Seq<char>, class: TrimClass) -> Seq<char> {
    trim_start(trim_end(s, class), class)
}

/// The end of `s` once trailing characters of `class` are dropped.
fn trimmed_end(s: &Vec<char>, class: &TrimClass) -> (j: usize)
    ensures
        j <= s@.len(),
        trim_end(s@, *class) == s@.take(j as int),
{
    let mut j = s.len();
    proof {
        assert(s@.take(j as int) =~= s@);
    }
    while j > 0 && class.test(s[j - 1])
        invariant
            j <= s@.len(),
            trim_end(s@, *class) == trim_end(s@.take(j as int), *class),
        decreases j,
    {
        proof {
            assert(s@.take(j as int).drop_last() =~= s@.take(j - 1));
        }
        j -= 1;
    }
    j
}

/// The start of `s[..end]` once leading characters of `class` are dropped.
fn trimmed_start(s: &Vec<char>, end: usize, class: &TrimClass) -> (i: usize)
    requires
        end <= s@.len(),
    ensures
        i <= end,
        trim_start(s@.take(end as int), *class) == s@.subrange(i as int, end as int),
{
    let mut i: usize = 0;
    proof {
        assert(s@.take(end as int) =~= s@.subrange(0, end as int));
    }
    while i < end && class.test(s[i])
        invariant
            i <= end <= s@.len(),
            trim_start(s@.take(end as int), *class) == trim_start(
                s@.subrange(i as int, end as int),
                *class,
            ),
        decreases end - i,
    {
        proof {
            assert(s@.subrange(i as int, end as int).skip(1) =~= s@.subrange(i + 1, end as int));
        }
        i += 1;
    }
    i
}

/// `s` without the characters of `class` at either end.
pub fn trim(s: &Vec<char>, class: &TrimClass) -> (r: Vec<char>)
    ensures
        r@ == trim_both(s@, *class),
{
    let j = trimmed_end(s, class);
    let i = trimmed_start(s, j, class);
    let mut r: Vec<char> = Vec::new();
    let mut k = i;
    while k < j
        invariant
            i <= k <= j <= s@.len(),
            r@ == s@.subrange(i as int, k as int),
        decreases j - k,
    {
        r.push(s[k]);
        proof {
            assert(s@.subrange(i as int, k + 1) =~= s@.subrange(i as int, k as int).push(
                s@[k as int],
            ));
        }
        k += 1;
    }
    r
}

/// `s` without trailing characters of `class`.
pub fn trim_end_of(s: &Vec<char>, class: &TrimClass) -> (r: Vec<char>)
    ensures
        r@ == trim_end(s@, *class),
{
    let j = trimmed_end(s, class);
    let mut r: Vec<char> = Vec::new();
    let mut k: usize = 0;
    while k < j
        invariant
            k <= j <= s@.len(),
            r@ == s@.take(k as int),
        decreases j - k,
    {
        r.push(s[k]);
        proof {
            assert(s@.take(k + 1) =~= s@.take(k as int).push(s@[k as int]));
        }
        k += 1;
    }
    r
}

// ---------------------------------------------------------------------------
// Numbers as text
// ---------------------------------------------------------------------------
/// The lowercase hexadecimal digit for `n < 16`.
pub open spec fn hex_digit(n: int) -> char {
    if n < 10 {
        (('0' as u32) + n) as char
    } else {
        (('a' as u32) + n - 10) as char
    }
}

/// Two lowercase hexadecimal digits per byte, high nibble first
/// (the `{:02x}` and `{:x}` formatting of bytes).
pub open spec fn hex_lower(bytes: Seq<u8>) -> Seq<char>
    decreases bytes.len(),
{
    if bytes.len() == 0 {
        Seq::<char>::empty()
    } else {
        hex_lower(bytes.drop_last()) + seq![
            hex_digit(bytes.last() as int / 16),
            hex_digit(bytes.last() as int % 16),
        ]
    }
}

pub open spec fn is_hex_lower_char(c: char) -> bool {
    is_ascii_digit(c) || ('a' <= c && c <= 'f')
}

pub proof fn lemma_hex_lower_shape(bytes: Seq<u8>)
    ensures
        hex_lower(bytes).len() == 2 * bytes.len(),
        forall|i: int| 0 <= i < hex_lower(bytes).len() ==> is_hex_lower_char(#[trigger] hex_lower(bytes)[i]),
    decreases bytes.len(),
{
    if bytes.len() > 0 {
        lemma_hex_lower_shape(bytes.drop_last());
    }
}

fn hex_char(n: u8) -> (c: char)
    requires
        n < 16,
    ensures
        c == hex_digit(n as int),
{
    if n < 10 {
        let b: u8 = 48 + n;
        b as char
    } else {
        let b: u8 = 87 + n;
        b as char
    }
}

/// Appends the lowercase hexadecimal digits of `bytes` to `out`.
pub fn push_hex(out: &mut String, bytes: &[u8])
    ensures
        final(out)@ == old(out)@ + hex_lower(bytes@),
{
    let mut i: usize = 0;
    proof {
        assert(bytes@.take(0) =~= Seq::<u8>::empty());
        assert(old(out)@ + hex_lower(Seq::<u8>::empty()) =~= old(out)@);
    }
    while i < bytes.len()
        invariant
            i <= bytes@.len(),
            out@ == old(out)@ + hex_lower(bytes@.take(i as int)),
        decreases bytes@.len() - i,
    {
        let b = bytes[i];
        push_char(out, hex_char(b / 16));
        push_char(out, hex_char(b % 16));
        proof {
            assert(bytes@.take(i + 1).drop_last() =~= bytes@.take(i as int));
            assert(out@ =~= old(out)@ + hex_lower(bytes@.take(i + 1)));
        }
        i += 1;
    }
    proof {
        assert(bytes@.take(bytes@.len() as int) =~= bytes@);
    }
}

/// The decimal digit for `n < 10`.
pub open spec fn decimal_digit(n: int) -> char {
    (('0' as u32) + n) as char
}

/// The value of a digit character.
pub open spec fn digit_value(c: char) -> int {
    (c as u32) - ('0' as u32)
}

/// The decimal notation of `n`, without sign or leading zeros.
pub open spec fn decimal(n: nat) -> Seq<char>
    decreases n,
{
    if n < 10 {
        seq![decimal_digit(n as int)]
    } else {
        decimal(n / 10).push(decimal_digit((n % 10) as int))
    }
}

pub open spec fn all_digits(s: Seq<char>) -> bool {
    forall|i: int| 0 <= i < s.len() ==> is_ascii_digit(#[trigger] s[i])
}

/// The number that a sequence of decimal digits denotes.
pub open spec fn digits_value(s: Seq<char>) -> nat
    decreases s.len(),
{
    if s.len() == 0 {
        0
    } else {
        (digits_value(s.drop_last()) * 10 + digit_value(s.last())) as nat
    }
}

/// `s` without one leading `+`.
pub open spec fn unsigned_digits(s: Seq<char>) -> Seq<char> {
    if s.len() > 0 && s[0] == '+' {
        s.skip(1)
    } else {
        s
    }
}

/// What `u16::from_str` accepts: an optional `+`, then at least one decimal
/// digit, denoting a number that fits in 16 bits.
pub open spec fn u16_from_text(s: Seq<char>) -> Option<u16> {
    let d = unsigned_digits(s);
    if d.len() > 0 && all_digits(d) && digits_value(d) <= 65535 {
        Some(digits_value(d) as u16)
    } else {
        None
    }
}

proof fn lemma_digits_value_grows(s: Seq<char>, i: int)
    requires
        all_digits(s),
        0 <= i <= s.len(),
    ensures
        digits_value(s.take(i)) <= digits_value(s),
    decreases s.len(),
{
    if i < s.len() {
        assert(s.drop_last().take(i) =~= s.take(i));
        lemma_digits_value_grows(s.drop_last(), i);
    } else {
        assert(s.take(i) =~= s);
    }
}

/// `u16::from_str`: the number that `s` denotes, if it is one that fits.
pub fn parse_u16(s: &str) -> (r: Option<u16>)
    ensures
        r == u16_from_text(s@),
{
    let v = chars_of(s);
    let start: usize = if v.len() > 0 && v[0] == '+' {
        1
    } else {
        0
    };
    let ghost d = unsigned_digits(s@);
    proof {
        assert(d =~= s@.skip(start as int));
    }
    if start >= v.len() {
        return None;
    }
    let mut acc: u32 = 0;
    let mut i = start;
    proof {
        assert(d.take(0) =~= Seq::<char>::empty());
    }
    while i < v.len()
        invariant
            v@ == s@,
            d == s@.skip(start as int),
            d == unsigned_digits(s@),
            start <= i <= v@.len(),
            all_digits(d.take(i - start)),
            acc == digits_value(d.take(i - start)),
            acc <= 65535,
        decreases v@.len() - i,
    {
        let c = v[i];
        if !ascii_digit(c) {
            proof {
                assert(d[i - start] == c);
                assert(!is_ascii_digit(d[i - start]));
                assert(!all_digits(d));
            }
            return None;
        }
        let digit = (c as u32) - 48;
        proof {
            assert(d.take(i + 1 - start).drop_last() =~= d.take(i - start));
            assert(d.take(i + 1 - start).last() == c);
        }
        acc = acc * 10 + digit;
        proof {
            assert(digit_value(c) == digit);
            assert(acc == digits_value(d.take(i + 1 - start)));
        }
        i += 1;
        if acc > 65535 {
            proof {
                let k = i - start;
                if all_digits(d) {
                    lemma_digits_value_grows(d, k);
                    assert(digits_value(d) > 65535);
                }
            }
            return None;
        }
    }
    proof {
        assert(d.take(i - start) =~= d);
    }
    Some(acc as u16)
}

/// Appends the decimal notation of `n` to `out`.
pub fn push_decimal(out: &mut String, n: u64)
    ensures
        final(out)@ == old(out)@ + decimal(n as nat),
    decreases n,
{
    if n >= 10 {
        push_decimal(out, n / 10);
    }
    let d: u8 = (n % 10) as u8;
    let b: u8 = 48 + d;
    push_char(out, b as char);
    proof {
        if n >= 10 {
            assert(decimal(n as nat) == decimal((n / 10) as nat).push(decimal_digit((n % 10) as int)));
        }
    }
}

/// Reading back the decimal notation of a 16-bit number gives that number.
pub proof fn lemma_decimal_round_trip(n: u16)
    ensures
        u16_from_text(decimal(n as nat)) == Some(n),
{
    lemma_decimal_value(n as nat);
    assert(decimal(n as nat)[0] != '+') by {
        lemma_decimal_digits(n as nat);
    }
}

proof fn lemma_digit_char_value(k: int)
    requires
        0 <= k < 10,
    ensures
        digit_value(decimal_digit(k)) == k,
        is_ascii_digit(decimal_digit(k)),
{
    assert(((('0' as u32) + k) as char) as u32 == ('0' as u32) + k);
}

proof fn lemma_decimal_digits(n: nat)
    ensures
        decimal(n).len() >= 1,
        all_digits(decimal(n)),
    decreases n,
{
    if n >= 10 {
        lemma_decimal_digits(n / 10);
    }
}

proof fn lemma_decimal_value(n: nat)
    ensures
        digits_value(decimal(n)) == n,
        all_digits(decimal(n)),
        decimal(n).len() >= 1,
    decreases n,
{
    lemma_decimal_digits(n);
    lemma_digit_char_value((n % 10) as int);
    let last = decimal_digit((n % 10) as int);
    if n >= 10 {
        lemma_decimal_value(n / 10);
        assert(decimal(n).drop_last() =~= decimal(n / 10));
        assert(decimal(n).last() == last);
        assert(digits_value(decimal(n)) == digits_value(decimal(n / 10)) * 10 + digit_value(last));
    } else {
        assert(decimal(n).drop_last() =~= Seq::<char>::empty());
        assert(decimal(n).last() == last);
        assert(digits_value(Seq::<char>::empty()) == 0);
        assert(digits_value(decimal(n)) == digit_value(last));
    }
}

// ---------------------------------------------------------------------------
// Small vector helpers
// ---------------------------------------------------------------------------
/// Whether `v` holds exactly the characters of `lit`.
pub fn equals_str(v: &Vec<char>, lit: &str) -> (b: bool)
    ensures
        b == (v@ == lit@),
{
    let l = chars_of(lit);
    if l.len() != v.len() {
        return false;
    }
    let mut i: usize = 0;
    while i < v.len()
        invariant
            l@ == lit@,
            l@.len() == v@.len(),
            i <= v@.len(),
            forall|j: int| 0 <= j < i ==> v@[j] == l@[j],
        decreases v@.len() - i,
    {
        if v[i] != l[i] {
            return false;
        }
        i += 1;
    }
    proof {
        assert(v@ =~= l@);
    }
    true
}

/// Whether `c` occurs in `v`.
pub fn contains_char(v: &Vec<char>, c: char) -> (b: bool)
    ensures
        b == v@.contains(c),
{
    let mut i: usize = 0;
    while i < v.len()
        invariant
            i <= v@.len(),
            forall|j: int| 0 <= j < i ==> v@[j] != c,
        decreases v@.len() - i,
    {
        if v[i] == c {
            return true;
        }
        i += 1;
    }
    false
}

/// The characters `v[from..to]`.
pub fn slice_of(v: &Vec<char>, from: usize, to: usize) -> (r: Vec<char>)
    requires
        from <= to <= v@.len(),
    ensures
        r@ == v@.subrange(from as int, to as int),
{
    let mut r: Vec<char> = Vec::new();
    let mut k = from;
    while k < to
        invariant
            from <= k <= to <= v@.len(),
            r@ == v@.subrange(from as int, k as int),
        decreases to - k,
    {
        r.push(v[k]);
        proof {
            assert(v@.subrange(from as int, k + 1) =~= v@.subrange(from as int, k as int).push(
                v@[k as int],
            ));
        }
        k += 1;
    }
    r
}

/// The part of `s` before the first `c`, or all of `s` (the first piece of
/// `str::split`).
pub open spec fn before_first(s: Seq<char>, c: char) -> Seq<char> {
    match first_occurrence(s, seq![c]) {
        Some(k) => s.take(k),
        None => s,
    }
}

/// `s` cut at its first `c` (as `str::split_once`).
pub open spec fn split_once(s: Seq<char>, c: char) -> Option<(Seq<char>, Seq<char>)> {
    match first_occurrence(s, seq![c]) {
        Some(k) => Some((s.take(k), s.skip(k + 1))),
        None => None,
    }
}

/// A position that `find_from` gives lies at or after the start and leaves
/// room for the pattern.
pub proof fn lemma_find_from_bounds(s: Seq<char>, pat: Seq<char>, i: int)
    ensures
        find_from(s, pat, i) matches Some(k) ==> i <= k && k + pat.len() <= s.len() && 0 <= k,
    decreases s.len() + 1 - i,
{
    if !(i < 0 || i + pat.len() > s.len()) && !occurs_at(s, pat, i) {
        lemma_find_from_bounds(s, pat, i + 1);
    }
}

/// The first position of `c` in `v`.
pub fn find_char(v: &Vec<char>, c: char) -> (r: Option<usize>)
    ensures
        r matches Some(k) ==> first_occurrence(v@, seq![c]) == Some(k as int) && k < v.len(),
        r is None ==> first_occurrence(v@, seq![c]) is None,
{
    let mut p: Vec<char> = Vec::new();
    p.push(c);
    proof {
        assert(p@ =~= seq![c]);
        lemma_find_from_bounds(v@, seq![c], 0);
    }
    find(v, &p, 0)
}

/// The part of `v` before its first `c`, or all of `v`.
pub fn before_first_char(v: &Vec<char>, c: char) -> (r: Vec<char>)
    ensures
        r@ == before_first(v@, c),
{
    match find_char(v, c) {
        Some(k) => {
            let r = slice_of(v, 0, k);
            proof {
                assert(v@.subrange(0, k as int) =~= v@.take(k as int));
            }
            r
        },
        None => slice_of_all(v),
    }
}

/// A copy of `v`.
pub fn slice_of_all(v: &Vec<char>) -> (r: Vec<char>)
    ensures
        r@ == v@,
{
    let r = slice_of(v, 0, v.len());
    proof {
        assert(v@.subrange(0, v@.len() as int) =~= v@);
    }
    r
}

/// `v` cut at its first `c`.
pub fn split_once_char(v: &Vec<char>, c: char) -> (r: Option<(Vec<char>, Vec<char>)>)
    ensures
        r matches Some((a, b)) ==> split_once(v@, c) == Some((a@, b@)),
        r is None ==> split_once(v@, c) is None,
{
    match find_char(v, c) {
        Some(k) => {
            let a = slice_of(v, 0, k);
            let b = slice_of(v, k + 1, v.len());
            proof {
                assert(v@.subrange(0, k as int) =~= v@.take(k as int));
                assert(v@.subrange(k + 1, v@.len() as int) =~= v@.skip(k + 1));
            }
            Some((a, b))
        },
        None => None,
    }
}

/// Replacing a pattern that does not occur leaves the text as it is.
pub proof fn lemma_replace_absent(s: Seq<char>, from: Seq<char>, to: Seq<char>)
    requires
        from.len() > 0,
        !contains_seq(s, from),
    ensures
        replaced(s, from, to) == s,
    decreases s.len(),
{
    if s.len() > 0 {
        if from.len() <= s.len() && s.take(from.len() as int) == from {
            assert(s.subrange(0, from.len() as int) =~= s.take(from.len() as int));
            assert(occurs_at(s, from, 0));
        }
        let t = s.skip(1);
        assert forall|j: int| !#[trigger] occurs_at(t, from, j) by {
            if occurs_at(t, from, j) {
                assert(s.subrange(j + 1, j + 1 + from.len()) =~= t.subrange(j, j + from.len()));
                assert(occurs_at(s, from, j + 1));
            }
        }
        lemma_replace_absent(t, from, to);
        assert(seq![s[0]] + t =~= s);
    }
}

proof fn lemma_find_char_from(s: Seq<char>, c: char, i: int, k: int)
    requires
        0 <= i <= k < s.len(),
        s[k] == c,
        forall|j: int| 0 <= j < k ==> s[j] != c,
    ensures
        find_from(s, seq![c], i) == Some(k),
    decreases k - i,
{
    if i < k {
        assert(s.subrange(i, i + 1)[0] == s[i]);
        assert(!occurs_at(s, seq![c], i));
        lemma_find_char_from(s, c, i + 1, k);
    } else {
        assert(s.subrange(k, k + 1) =~= seq![c]);
    }
}

/// The first occurrence of a character is the first position that holds it.
pub proof fn lemma_first_char(s: Seq<char>, c: char, k: int)
    requires
        0 <= k < s.len(),
        s[k] == c,
        forall|j: int| 0 <= j < k ==> s[j] != c,
    ensures
        first_occurrence(s, seq![c]) == Some(k),
{
    lemma_find_char_from(s, c, 0, k);
}

/// Splitting at a character that does not occur gives the whole text as
/// the one piece.
pub proof fn lemma_split_char_absent(s: Seq<char>, c: char)
    requires
        !s.contains(c),
    ensures
        split_char(s, c) == seq![s],
    decreases s.len(),
{
    if s.len() > 0 {
        assert(!s.drop_last().contains(c)) by {
            if s.drop_last().contains(c) {
                let j = choose|j: int| 0 <= j < s.drop_last().len() && s.drop_last()[j] == c;
                assert(s[j] == c);
            }
        }
        lemma_split_char_absent(s.drop_last(), c);
        assert(s.last() != c);
        assert(s.drop_last().push(s.last()) =~= s);
        assert(seq![s.drop_last()].update(0, s) =~= seq![s]);
    } else {
        assert(s =~= Seq::<char>::empty());
    }
}

/// `find_from` finds no character `c` from `i` on exactly where none
/// stands there.
proof fn lemma_find_char_none(s: Seq<char>, c: char, i: int)
    requires
        0 <= i <= s.len(),
    ensures
        find_from(s, seq![c], i) is None <==> (forall|j: int| i <= j < s.len() ==> s[j] != c),
    decreases s.len() - i,
{
    if i < s.len() {
        assert(s.subrange(i, i + 1) =~= seq![s[i]]);
        lemma_find_char_none(s, c, i + 1);
        if s[i] == c {
            assert(occurs_at(s, seq![c], i));
        } else {
            assert(s.subrange(i, i + 1)[0] == s[i]);
            assert(seq![c][0] == c);
            assert(!occurs_at(s, seq![c], i));
            assert((forall|j: int| i <= j < s.len() ==> s[j] != c) <==> (forall|j: int|
                i + 1 <= j < s.len() ==> s[j] != c));
        }
    }
}

/// `split_once` cuts `s` exactly where `c` occurs in it.
pub proof fn lemma_split_once_some(s: Seq<char>, c: char)
    ensures
        split_once(s, c) is Some <==> s.contains(c),
{
    lemma_find_char_none(s, c, 0);
}

/// Splitting at one occurrence of the separator splits the two sides apart.
pub proof fn lemma_split_char_concat(a: Seq<char>, c: char, b: Seq<char>)
    ensures
        split_char(a + seq![c] + b, c) == split_char(a, c) + split_char(b, c),
    decreases b.len(),
{
    let s = a + seq![c] + b;
    if b.len() == 0 {
        assert(s.drop_last() =~= a);
        assert(split_char(b, c) =~= seq![Seq::<char>::empty()]);
        assert(split_char(a, c).push(Seq::<char>::empty()) =~= split_char(a, c) + split_char(b, c));
    } else {
        let b1 = b.drop_last();
        assert(s.drop_last() =~= a + seq![c] + b1);
        lemma_split_char_concat(a, c, b1);
        lemma_split_char_nonempty(b1, c);
        let pa = split_char(a, c);
        let pb = split_char(b1, c);
        if b.last() == c {
            assert((pa + pb).push(Seq::<char>::empty()) =~= pa + pb.push(Seq::<char>::empty()));
        } else {
            let q = pa + pb;
            assert(q.last() == pb.last());
            assert(q.update(q.len() - 1, q.last().push(b.last())) =~= pa + pb.update(
                pb.len() - 1,
                pb.last().push(b.last()),
            ));
        }
    }
}

/// The second piece of `a`, a space, `w` and a rest that is empty or starts
/// with a space, split at spaces, is `w` (where `a` and `w` hold no space).
pub proof fn lemma_second_word(a: Seq<char>, w: Seq<char>, r: Seq<char>)
    requires
        !a.contains(' '),
        !w.contains(' '),
        r.len() == 0 || r[0] == ' ',
    ensures
        split_char(a + seq![' '] + w + r, ' ').len() > 1,
        split_char(a + seq![' '] + w + r, ' ')[1] == w,
{
    lemma_split_char_absent(a, ' ');
    lemma_split_char_absent(w, ' ');
    if r.len() == 0 {
        assert(a + seq![' '] + w + r =~= a + seq![' '] + w);
        lemma_split_char_concat(a, ' ', w);
    } else {
        let r1 = r.skip(1);
        assert(a + seq![' '] + w + r =~= a + seq![' '] + (w + seq![' '] + r1));
        lemma_split_char_concat(a, ' ', w + seq![' '] + r1);
        lemma_split_char_concat(w, ' ', r1);
        lemma_split_char_nonempty(r1, ' ');
    }
}

/// A text occurs in any text that has it in the middle.
pub proof fn lemma_contains_middle(p: Seq<char>, m: Seq<char>, q: Seq<char>)
    ensures
        contains_seq(p + m + q, m),
{
    assert((p + m + q).subrange(p.len() as int, (p.len() + m.len()) as int) =~= m);
    assert(occurs_at(p + m + q, m, p.len() as int));
}

/// What occurs in a text occurs in it with more text on either side.
pub proof fn lemma_contains_extend(a: Seq<char>, b: Seq<char>, pat: Seq<char>)
    requires
        contains_seq(a, pat),
    ensures
        contains_seq(a + b, pat),
        contains_seq(b + a, pat),
{
    let i = choose|i: int| occurs_at(a, pat, i);
    assert((a + b).subrange(i, i + pat.len()) =~= a.subrange(i, i + pat.len()));
    assert(occurs_at(a + b, pat, i));
    assert((b + a).subrange(b.len() + i, b.len() + i + pat.len()) =~= a.subrange(i, i + pat.len()));
    assert(occurs_at(b + a, pat, b.len() + i));
}

} // verus!
