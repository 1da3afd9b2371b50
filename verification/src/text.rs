//! Character-level text helpers, each stated over the `Seq<char>` view.
//!
//! The library works on vectors of characters; `to_chars` and `string_of`
//! move between those and `String`.

use vstd::prelude::*;

verus! {

/// Copies the characters of `s` into a vector.
pub fn to_chars(s: &str) -> (v: Vec<char>)
    ensures
        v@ == s@,
{
    let mut v: Vec<char> = Vec::new();
    for c in it: s.chars()
        invariant
            v@ == it.seq().take(it.index() as int),
            it.seq() == s@,
    {
        v.push(c);
    }
    v
}

/// Appends one character to a string with `String::push`.
#[verifier::external_body]
fn push_char(s: &mut String, c: char)
    ensures
        final(s)@ == old(s)@.push(c),
{
    s.push(c);
}

/// Builds a string from a sequence of characters.
pub fn string_of(v: &Vec<char>) -> (s: String)
    ensures
        s@ == v@,
{
    let mut s = String::new();
    let mut i: usize = 0;
    while i < v.len()
        invariant
            i <= v.len(),
            s@ == v@.take(i as int),
        decreases v.len() - i,
    {
        push_char(&mut s, v[i]);
        i = i + 1;
        assert(v@.take(i as int) =~= v@.take((i - 1) as int).push(v@[i - 1]));
    }
    assert(v@.take(i as int) =~= v@);
    s
}

/// A string holding the characters of a literal or other `&str`.
pub fn owned(s: &str) -> (r: String)
    ensures
        r@ == s@,
{
    s.to_owned()
}

/// Appends the characters of `v` to `s`.
pub fn push_chars(s: &mut String, v: &Vec<char>)
    ensures
        final(s)@ == old(s)@ + v@,
{
    let mut i: usize = 0;
    while i < v.len()
        invariant
            i <= v.len(),
            s@ == old(s)@ + v@.take(i as int),
        decreases v.len() - i,
    {
        push_char(s, v[i]);
        i = i + 1;
        assert(v@.take(i as int) =~= v@.take((i - 1) as int).push(v@[i - 1]));
    }
    assert(v@.take(i as int) =~= v@);
}

/// Copies `v[a..b]` into a new vector.
pub fn slice(v: &Vec<char>, a: usize, b: usize) -> (r: Vec<char>)
    requires
        a <= b <= v.len(),
    ensures
        r@ == v@.subrange(a as int, b as int),
{
    let mut r: Vec<char> = Vec::new();
    let mut i: usize = a;
    while i < b
        invariant
            a <= i <= b <= v.len(),
            r@ == v@.subrange(a as int, i as int),
        decreases b - i,
    {
        r.push(v[i]);
        i = i + 1;
        assert(r@ =~= v@.subrange(a as int, i as int));
    }
    r
}

/// Unicode `White_Space`, the property that `char::is_whitespace` tests.
pub open spec fn is_ws(c: char) -> bool {
    c == '\t' || c == '\n' || c == '\u{0B}' || c == '\u{0C}' || c == '\r' || c == ' '
        || c == '\u{85}' || c == '\u{A0}' || c == '\u{1680}' || ('\u{2000}' <= c
        && c <= '\u{200A}') || c == '\u{2028}' || c == '\u{2029}' || c == '\u{202F}'
        || c == '\u{205F}' || c == '\u{3000}'
}

/// Whether `c` is Unicode white space.
pub fn is_whitespace(c: char) -> (b: bool)
    ensures
        b == is_ws(c),
{
    c == '\t' || c == '\n' || c == '\u{0B}' || c == '\u{0C}' || c == '\r' || c == ' '
        || c == '\u{85}' || c == '\u{A0}' || c == '\u{1680}' || ('\u{2000}' <= c
        && c <= '\u{200A}') || c == '\u{2028}' || c == '\u{2029}' || c == '\u{202F}'
        || c == '\u{205F}' || c == '\u{3000}'
}

/// The first index at or after `i` that does not hold white space.
pub open spec fn ws_run_end(s: Seq<char>, i: int) -> int
    decreases s.len() - i,
{
    if 0 <= i < s.len() && is_ws(s[i]) {
        ws_run_end(s, i + 1)
    } else {
        i
    }
}

/// The index after the last character before `j` that is not white space.
pub open spec fn ws_run_start(s: Seq<char>, j: int) -> int
    decreases j,
{
    if 0 < j <= s.len() && is_ws(s[j - 1]) {
        ws_run_start(s, j - 1)
    } else {
        j
    }
}

/// `s` without its leading white space (`str::trim_start`).
pub open spec fn trim_start(s: Seq<char>) -> Seq<char> {
    s.subrange(ws_run_end(s, 0), s.len() as int)
}

/// `s` without its trailing white space (`str::trim_end`).
pub open spec fn trim_end(s: Seq<char>) -> Seq<char> {
    s.subrange(0, ws_run_start(s, s.len() as int))
}

/// `s` without leading and trailing white space (`str::trim`).
pub open spec fn trim(s: Seq<char>) -> Seq<char> {
    trim_end(trim_start(s))
}

pub proof fn lemma_ws_run_end_bounds(s: Seq<char>, i: int)
    requires
        0 <= i <= s.len(),
    ensures
        i <= ws_run_end(s, i) <= s.len(),
        ws_run_end(s, i) < s.len() ==> !is_ws(s[ws_run_end(s, i)]),
        forall|k: int| i <= k < ws_run_end(s, i) ==> is_ws(#[trigger] s[k]),
    decreases s.len() - i,
{
    if i < s.len() && is_ws(s[i]) {
        lemma_ws_run_end_bounds(s, i + 1);
    }
}

pub proof fn lemma_ws_run_start_bounds(s: Seq<char>, j: int)
    requires
        0 <= j <= s.len(),
    ensures
        0 <= ws_run_start(s, j) <= j,
        ws_run_start(s, j) > 0 ==> !is_ws(s[ws_run_start(s, j) - 1]),
        forall|k: int| ws_run_start(s, j) <= k < j ==> is_ws(#[trigger] s[k]),
    decreases j,
{
    if 0 < j && is_ws(s[j - 1]) {
        lemma_ws_run_start_bounds(s, j - 1);
    }
}

/// `v` without leading white space.
pub fn trim_start_chars(v: &Vec<char>) -> (r: Vec<char>)
    ensures
        r@ == trim_start(v@),
{
    let mut i: usize = 0;
    while i < v.len() && is_whitespace(v[i])
        invariant
            i <= v.len(),
            ws_run_end(v@, 0) == ws_run_end(v@, i as int),
        decreases v.len() - i,
    {
        i = i + 1;
    }
    slice(v, i, v.len())
}

/// `v` without trailing white space.
pub fn trim_end_chars(v: &Vec<char>) -> (r: Vec<char>)
    ensures
        r@ == trim_end(v@),
{
    let mut j: usize = v.len();
    while j > 0 && is_whitespace(v[j - 1])
        invariant
            j <= v.len(),
            ws_run_start(v@, v@.len() as int) == ws_run_start(v@, j as int),
        decreases j,
    {
        j = j - 1;
    }
    slice(v, 0, j)
}

/// `v` without leading and trailing white space.
pub fn trim_chars(v: &Vec<char>) -> (r: Vec<char>)
    ensures
        r@ == trim(v@),
{
    let t = trim_start_chars(v);
    trim_end_chars(&t)
}

/// `str::trim`, as a new string.
pub fn trim_str(s: &str) -> (r: String)
    ensures
        r@ == trim(s@),
{
    let v = to_chars(s);
    let t = trim_chars(&v);
    string_of(&t)
}

/// Whether `p` occurs in `s` at index `i`.
pub open spec fn matches_at(s: Seq<char>, p: Seq<char>, i: int) -> bool {
    0 <= i && i + p.len() <= s.len() && s.subrange(i, i + p.len()) == p
}

/// `s` begins with `p`.
pub open spec fn starts_with(s: Seq<char>, p: Seq<char>) -> bool {
    matches_at(s, p, 0)
}

/// `s` ends with `p`.
pub open spec fn ends_with(s: Seq<char>, p: Seq<char>) -> bool {
    matches_at(s, p, s.len() - p.len())
}

/// `s` holds `p` somewhere.
pub open spec fn contains(s: Seq<char>, p: Seq<char>) -> bool {
    exists|i: int| matches_at(s, p, i)
}

/// Whether `v[i..]` begins with `p`.
pub fn matches_at_exec(v: &Vec<char>, p: &Vec<char>, i: usize) -> (b: bool)
    ensures
        b == matches_at(v@, p@, i as int),
{
    if i > v.len() || p.len() > v.len() - i {
        return false;
    }
    let mut k: usize = 0;
    while k < p.len()
        invariant
            k <= p.len(),
            i + p.len() <= v.len(),
            forall|m: int| 0 <= m < k ==> v@[i + m] == p@[m],
        decreases p.len() - k,
    {
        if v[i + k] != p[k] {
            assert(v@.subrange(i as int, i + p.len())[k as int] != p@[k as int]);
            return false;
        }
        k = k + 1;
    }
    assert(v@.subrange(i as int, i + p.len()) =~= p@);
    true
}

/// Whether `v` begins with `p`.
pub fn starts_with_chars(v: &Vec<char>, p: &Vec<char>) -> (b: bool)
    ensures
        b == starts_with(v@, p@),
{
    matches_at_exec(v, p, 0)
}

/// Whether `v` ends with `p`.
pub fn ends_with_chars(v: &Vec<char>, p: &Vec<char>) -> (b: bool)
    ensures
        b == ends_with(v@, p@),
{
    if p.len() > v.len() {
        return false;
    }
    matches_at_exec(v, p, v.len() - p.len())
}

/// The first index at or after `i` where `p` occurs in `s`.
pub open spec fn find_from(s: Seq<char>, p: Seq<char>, i: int) -> Option<int>
    decreases s.len() + 1 - i,
{
    if i < 0 || i + p.len() > s.len() {
        None
    } else if matches_at(s, p, i) {
        Some(i)
    } else {
        find_from(s, p, i + 1)
    }
}

pub proof fn lemma_find_from(s: Seq<char>, p: Seq<char>, i: int)
    requires
        0 <= i,
    ensures
        find_from(s, p, i) matches Some(k) ==> i <= k && matches_at(s, p, k) && forall|m: int|
            i <= m < k ==> !matches_at(s, p, m),
        find_from(s, p, i) is None ==> forall|m: int| i <= m ==> !matches_at(s, p, m),
    decreases s.len() + 1 - i,
{
    if i + p.len() > s.len() {
    } else if matches_at(s, p, i) {
    } else {
        lemma_find_from(s, p, i + 1);
    }
}

/// The first index at or after `from` where `p` occurs in `v`.
pub fn find_chars(v: &Vec<char>, p: &Vec<char>, from: usize) -> (r: Option<usize>)
    ensures
        r matches Some(k) ==> find_from(v@, p@, from as int) == Some(k as int),
        r is None ==> find_from(v@, p@, from as int) is None,
{
    let mut i: usize = from;
    while i <= v.len() && p.len() <= v.len() - i
        invariant
            from <= i,
            find_from(v@, p@, from as int) == find_from(v@, p@, i as int),
        decreases v.len() + 1 - i,
    {
        if matches_at_exec(v, p, i) {
            return Some(i);
        }
        if i == v.len() {
            assert(find_from(v@, p@, i + 1) is None);
            return None;
        }
        i = i + 1;
    }
    None
}

/// Whether `p` occurs in `v`.
pub fn contains_chars(v: &Vec<char>, p: &Vec<char>) -> (b: bool)
    ensures
        b == contains(v@, p@),
{
    let r = find_chars(v, p, 0);
    proof {
        lemma_find_from(v@, p@, 0);
    }
    r.is_some()
}

/// Whether the string `s` holds the string `p`.
pub fn str_contains(s: &str, p: &str) -> (b: bool)
    ensures
        b == contains(s@, p@),
{
    let v = to_chars(s);
    let q = to_chars(p);
    contains_chars(&v, &q)
}

/// Whether `c` occurs in `s`.
pub open spec fn has_char(s: Seq<char>, c: char) -> bool {
    exists|i: int| 0 <= i < s.len() && s[i] == c
}

/// The first index at or after `i` that holds `c`, or `s.len()`.
pub open spec fn char_index_from(s: Seq<char>, c: char, i: int) -> int
    decreases s.len() - i,
{
    if i < 0 || i >= s.len() {
        s.len() as int
    } else if s[i] == c {
        i
    } else {
        char_index_from(s, c, i + 1)
    }
}

pub proof fn lemma_char_index_from(s: Seq<char>, c: char, i: int)
    requires
        0 <= i <= s.len(),
    ensures
        i <= char_index_from(s, c, i) <= s.len(),
        char_index_from(s, c, i) < s.len() ==> s[char_index_from(s, c, i)] == c,
        forall|k: int| i <= k < char_index_from(s, c, i) ==> s[k] != c,
    decreases s.len() - i,
{
    if i < s.len() && s[i] != c {
        lemma_char_index_from(s, c, i + 1);
    }
}

/// The first index at or after `from` that holds `c`, or `v.len()`.
pub fn char_index(v: &Vec<char>, c: char, from: usize) -> (r: usize)
    requires
        from <= v.len(),
    ensures
        r == char_index_from(v@, c, from as int),
{
    let mut i = from;
    while i < v.len() && v[i] != c
        invariant
            from <= i <= v.len(),
            char_index_from(v@, c, from as int) == char_index_from(v@, c, i as int),
        decreases v.len() - i,
    {
        i = i + 1;
    }
    i
}

/// ASCII upper-case letters mapped to lower case, as `char::to_ascii_lowercase`.
pub open spec fn ascii_lower_char(c: char) -> char {
    if 'A' <= c && c <= 'Z' {
        ((c as u32) + 32) as char
    } else {
        c
    }
}

/// `str::to_ascii_lowercase`.
pub open spec fn ascii_lower(s: Seq<char>) -> Seq<char> {
    s.map_values(|c: char| ascii_lower_char(c))
}

/// Lower-cases the ASCII letters of `v`.
pub fn ascii_lower_chars(v: &Vec<char>) -> (r: Vec<char>)
    ensures
        r@ == ascii_lower(v@),
{
    let mut r: Vec<char> = Vec::new();
    let mut i: usize = 0;
    while i < v.len()
        invariant
            i <= v.len(),
            r@ == ascii_lower(v@.take(i as int)),
        decreases v.len() - i,
    {
        let c = v[i];
        let d = if 'A' <= c && c <= 'Z' {
            let n: u8 = (c as u8) + 32;
            n as char
        } else {
            c
        };
        r.push(d);
        i = i + 1;
        assert(ascii_lower(v@.take(i as int)) =~= ascii_lower(v@.take((i - 1) as int)).push(
            ascii_lower_char(v@[i - 1]),
        ));
    }
    assert(v@.take(i as int) =~= v@);
    r
}


/// The index after the run of non-white-space characters that starts at `j`.
pub open spec fn token_end(s: Seq<char>, j: int) -> int
    decreases s.len() - j,
{
    if 0 <= j < s.len() && !is_ws(s[j]) {
        token_end(s, j + 1)
    } else {
        j
    }
}

pub proof fn lemma_token_end_bounds(s: Seq<char>, j: int)
    requires
        0 <= j <= s.len(),
    ensures
        j <= token_end(s, j) <= s.len(),
        j < s.len() && !is_ws(s[j]) ==> j < token_end(s, j),
        token_end(s, j) < s.len() ==> is_ws(s[token_end(s, j)]),
        forall|k: int| j <= k < token_end(s, j) ==> !is_ws(#[trigger] s[k]),
    decreases s.len() - j,
{
    if j < s.len() && !is_ws(s[j]) {
        lemma_token_end_bounds(s, j + 1);
    }
}

/// The white-space separated words of `s[i..]`, as `str::split_whitespace`.
pub open spec fn words_from(s: Seq<char>, i: int) -> Seq<Seq<char>>
    decreases s.len() - i,
{
    if i < 0 || i >= s.len() {
        seq![]
    } else {
        let a = ws_run_end(s, i);
        if a >= s.len() {
            seq![]
        } else {
            let b = token_end(s, a);
            proof {
                lemma_ws_run_end_bounds(s, i);
                lemma_token_end_bounds(s, a);
            }
            seq![s.subrange(a, b)] + words_from(s, b)
        }
    }
}

/// The white-space separated words of `s` (`str::split_whitespace`).
pub open spec fn words(s: Seq<char>) -> Seq<Seq<char>> {
    words_from(s, 0)
}

/// The character sequences held by a vector of character vectors.
pub open spec fn views(r: Seq<Vec<char>>) -> Seq<Seq<char>> {
    r.map_values(|w: Vec<char>| w@)
}

/// The white-space separated words of `v`.
pub fn words_chars(v: &Vec<char>) -> (r: Vec<Vec<char>>)
    ensures
        views(r@) == words(v@),
{
    let mut r: Vec<Vec<char>> = Vec::new();
    let mut i: usize = 0;
    while i < v.len()
        invariant
            i <= v.len(),
            words(v@) == views(r@) + words_from(v@, i as int),
        decreases v.len() - i,
    {
        let ghost i0 = i as int;
        proof {
            lemma_ws_run_end_bounds(v@, i0);
        }
        let mut a = i;
        while a < v.len() && is_whitespace(v[a])
            invariant
                i <= a <= v.len(),
                ws_run_end(v@, i as int) == ws_run_end(v@, a as int),
            decreases v.len() - a,
        {
            a = a + 1;
        }
        if a >= v.len() {
            assert(words_from(v@, i0) == Seq::<Seq<char>>::empty());
            assert(views(r@) + words_from(v@, i0) =~= views(r@));
            i = v.len();
        } else {
            proof {
                lemma_token_end_bounds(v@, a as int);
            }
            let mut b = a;
            while b < v.len() && !is_whitespace(v[b])
                invariant
                    a <= b <= v.len(),
                    token_end(v@, a as int) == token_end(v@, b as int),
                decreases v.len() - b,
            {
                b = b + 1;
            }
            let w = slice(v, a, b);
            let ghost old_r = r@;
            r.push(w);
            assert(views(r@) =~= views(old_r).push(v@.subrange(a as int, b as int)));
            assert(words_from(v@, i0) == seq![v@.subrange(a as int, b as int)] + words_from(
                v@,
                b as int,
            ));
            assert(views(r@) + words_from(v@, b as int) =~= views(old_r) + words_from(v@, i0));
            i = b;
        }
    }
    assert(words_from(v@, i as int) == Seq::<Seq<char>>::empty());
    assert(views(r@) + words_from(v@, i as int) =~= views(r@));
    r
}

/// A line without the carriage return that ended it.
pub open spec fn strip_cr(l: Seq<char>) -> Seq<char> {
    if l.len() > 0 && l.last() == '\r' {
        l.drop_last()
    } else {
        l
    }
}

/// The lines of `s[i..]`, as `str::lines`: split at `\n`, a `\r` before the
/// `\n` dropped, and no empty line after a final `\n`.
pub open spec fn lines_from(s: Seq<char>, i: int) -> Seq<Seq<char>>
    decreases s.len() - i,
{
    if i < 0 || i >= s.len() {
        seq![]
    } else {
        let j = char_index_from(s, '\n', i);
        proof {
            lemma_char_index_from(s, '\n', i);
        }
        if j < s.len() {
            seq![strip_cr(s.subrange(i, j))] + lines_from(s, j + 1)
        } else {
            seq![s.subrange(i, j)]
        }
    }
}

/// The lines of `s` (`str::lines`).
pub open spec fn lines(s: Seq<char>) -> Seq<Seq<char>> {
    lines_from(s, 0)
}

/// The line of `v` that starts at `i` and the index after its line end.
pub fn line_at(v: &Vec<char>, i: usize) -> (r: (Vec<char>, usize))
    requires
        i < v.len(),
    ensures
        i < r.1 <= v.len(),
        lines_from(v@, i as int) == seq![r.0@] + lines_from(v@, r.1 as int),
{
    proof {
        lemma_char_index_from(v@, '\n', i as int);
    }
    let j = char_index(v, '\n', i);
    if j < v.len() {
        let mut k = j;
        if k > i && v[k - 1] == '\r' {
            k = k - 1;
        }
        let line = slice(v, i, k);
        assert(line@ =~= strip_cr(v@.subrange(i as int, j as int)));
        (line, j + 1)
    } else {
        let line = slice(v, i, j);
        assert(lines_from(v@, j as int) == Seq::<Seq<char>>::empty());
        assert(lines_from(v@, i as int) =~= seq![line@] + lines_from(v@, j as int));
        (line, j)
    }
}

/// The lines of `v`.
pub fn lines_chars(v: &Vec<char>) -> (r: Vec<Vec<char>>)
    ensures
        views(r@) == lines(v@),
{
    let mut r: Vec<Vec<char>> = Vec::new();
    let mut i: usize = 0;
    while i < v.len()
        invariant
            i <= v.len(),
            lines(v@) == views(r@) + lines_from(v@, i as int),
        decreases v.len() - i,
    {
        let (line, next) = line_at(v, i);
        let ghost old_r = r@;
        r.push(line);
        assert(views(r@) =~= views(old_r).push(line@));
        assert(views(r@) + lines_from(v@, next as int) =~= views(old_r) + lines_from(
            v@,
            i as int,
        ));
        i = next;
    }
    assert(views(r@) + lines_from(v@, i as int) =~= views(r@));
    r
}

/// The character for a decimal digit.
pub open spec fn digit_char(d: nat) -> char {
    ((d + 48) as u8) as char
}

/// The decimal digits of `n`, without leading zeros.
pub open spec fn decimal(n: nat) -> Seq<char>
    decreases n,
{
    if n < 10 {
        seq![digit_char(n)]
    } else {
        decimal(n / 10).push(digit_char(n % 10))
    }
}

/// The decimal text of an integer, with a `-` before a negative one.
pub open spec fn signed_decimal(n: int) -> Seq<char> {
    if n < 0 {
        seq!['-'] + decimal((-n) as nat)
    } else {
        decimal(n as nat)
    }
}

fn digit(d: u64) -> (c: char)
    requires
        d < 10,
    ensures
        c == digit_char(d as nat),
{
    let b: u8 = (d as u8) + 48;
    b as char
}

/// The decimal digits of `n`.
pub fn decimal_chars(n: u64) -> (r: Vec<char>)
    ensures
        r@ == decimal(n as nat),
    decreases n,
{
    if n < 10 {
        let mut r: Vec<char> = Vec::new();
        r.push(digit(n));
        assert(r@ =~= seq![digit_char(n as nat)]);
        r
    } else {
        let mut r = decimal_chars(n / 10);
        r.push(digit(n % 10));
        r
    }
}

/// The decimal text of `n` (`u64::to_string`).
pub fn u64_text(n: u64) -> (s: String)
    ensures
        s@ == decimal(n as nat),
{
    let v = decimal_chars(n);
    string_of(&v)
}

/// The decimal text of `n` (`i32::to_string`).
pub fn i32_text(n: i32) -> (s: String)
    ensures
        s@ == signed_decimal(n as int),
{
    if n < 0 {
        let m: i64 = -(n as i64);
        let mut v: Vec<char> = Vec::new();
        v.push('-');
        let d = decimal_chars(m as u64);
        let mut s = string_of(&v);
        push_chars(&mut s, &d);
        s
    } else {
        u64_text(n as u64)
    }
}

/// The lower-case character for a hexadecimal digit.
pub open spec fn hex_char(d: nat) -> char {
    if d < 10 {
        ((d + 48) as u8) as char
    } else {
        ((d + 87) as u8) as char
    }
}

/// The last `w` hexadecimal digits of `n`, zero-padded.
pub open spec fn hex_fixed(n: nat, w: nat) -> Seq<char>
    decreases w,
{
    if w == 0 {
        seq![]
    } else {
        hex_fixed(n / 16, (w - 1) as nat).push(hex_char(n % 16))
    }
}

/// The last `w` hexadecimal digits of `n`, lower case and zero-padded.
pub fn hex_fixed_chars(n: u128, w: usize) -> (r: Vec<char>)
    ensures
        r@ == hex_fixed(n as nat, w as nat),
    decreases w,
{
    if w == 0 {
        Vec::new()
    } else {
        let mut r = hex_fixed_chars(n / 16, w - 1);
        let d = n % 16;
        let b: u8 = if d < 10 {
            (d as u8) + 48
        } else {
            (d as u8) + 87
        };
        r.push(b as char);
        r
    }
}


/// The pieces of `s[i..]` between occurrences of `c` (`str::split` on a char).
pub open spec fn split_from(s: Seq<char>, c: char, i: int) -> Seq<Seq<char>>
    decreases s.len() + 1 - i,
{
    if i < 0 || i > s.len() {
        seq![]
    } else {
        let j = char_index_from(s, c, i);
        proof {
            lemma_char_index_from(s, c, i);
        }
        if j < s.len() {
            seq![s.subrange(i, j)] + split_from(s, c, j + 1)
        } else {
            seq![s.subrange(i, s.len() as int)]
        }
    }
}

/// The pieces of `s` between occurrences of `c`.
pub open spec fn split(s: Seq<char>, c: char) -> Seq<Seq<char>> {
    split_from(s, c, 0)
}

/// The pieces of `v` between occurrences of `c`.
pub fn split_chars(v: &Vec<char>, c: char) -> (r: Vec<Vec<char>>)
    ensures
        views(r@) == split(v@, c),
        r@.len() >= 1,
{
    let mut r: Vec<Vec<char>> = Vec::new();
    let mut i: usize = 0;
    loop
        invariant
            i <= v.len(),
            split(v@, c) == views(r@) + split_from(v@, c, i as int),
        decreases v.len() + 1 - i,
    {
        proof {
            lemma_char_index_from(v@, c, i as int);
        }
        let j = char_index(v, c, i);
        let piece = slice(v, i, j);
        let ghost old_r = r@;
        r.push(piece);
        assert(views(r@) =~= views(old_r).push(piece@));
        if j < v.len() {
            assert(views(r@) + split_from(v@, c, j + 1) =~= views(old_r) + split_from(
                v@,
                c,
                i as int,
            ));
            i = j + 1;
        } else {
            assert(views(r@) =~= views(old_r) + split_from(v@, c, i as int));
            return r;
        }
    }
}

/// Whether two character vectors hold the same characters.
pub fn chars_eq(a: &Vec<char>, b: &Vec<char>) -> (r: bool)
    ensures
        r == (a@ == b@),
{
    if a.len() != b.len() {
        return false;
    }
    let mut i: usize = 0;
    while i < a.len()
        invariant
            i <= a.len() == b.len(),
            forall|k: int| 0 <= k < i ==> a@[k] == b@[k],
        decreases a.len() - i,
    {
        if a[i] != b[i] {
            return false;
        }
        i = i + 1;
    }
    assert(a@ =~= b@);
    true
}

/// Whether `v` holds exactly the characters of the literal `s`.
pub fn is_text(v: &Vec<char>, s: &str) -> (r: bool)
    ensures
        r == (v@ == s@),
{
    let w = to_chars(s);
    chars_eq(v, &w)
}


/// Whether `s` is empty after trimming (`s.trim().is_empty()`).
pub fn is_blank(s: &str) -> (b: bool)
    ensures
        b == (trim(s@).len() == 0),
{
    let v = to_chars(s);
    let t = trim_chars(&v);
    t.len() == 0
}

/// The characters held by an optional string.
pub open spec fn opt_view(o: Option<String>) -> Option<Seq<char>> {
    match o {
        Some(s) => Some(s@),
        None => None,
    }
}

/// A copy of an optional string.
pub fn clone_opt(o: &Option<String>) -> (r: Option<String>)
    ensures
        opt_view(r) == opt_view(*o),
{
    match o {
        Some(s) => Some(s.clone()),
        None => None,
    }
}


/// `s` without the prefix `p`, when it starts with `p`.
pub open spec fn strip_prefix(s: Seq<char>, p: Seq<char>) -> Option<Seq<char>> {
    if starts_with(s, p) {
        Some(s.skip(p.len() as int))
    } else {
        None
    }
}

/// `s` without the suffix `p`, when it ends with `p`.
pub open spec fn strip_suffix(s: Seq<char>, p: Seq<char>) -> Option<Seq<char>> {
    if ends_with(s, p) {
        Some(s.take(s.len() - p.len()))
    } else {
        None
    }
}

/// `v` without the prefix `lit`, when it starts with it.
pub fn strip_prefix_lit(v: &Vec<char>, lit: &str) -> (r: Option<Vec<char>>)
    ensures
        r matches Some(x) ==> strip_prefix(v@, lit@) == Some(x@),
        r is None ==> strip_prefix(v@, lit@) is None,
{
    let p = to_chars(lit);
    if starts_with_chars(v, &p) {
        let x = slice(v, p.len(), v.len());
        assert(x@ =~= v@.skip(p@.len() as int));
        Some(x)
    } else {
        None
    }
}

/// `v` without the suffix `lit`, when it ends with it.
pub fn strip_suffix_lit(v: &Vec<char>, lit: &str) -> (r: Option<Vec<char>>)
    ensures
        r matches Some(x) ==> strip_suffix(v@, lit@) == Some(x@),
        r is None ==> strip_suffix(v@, lit@) is None,
{
    let p = to_chars(lit);
    if ends_with_chars(v, &p) {
        let x = slice(v, 0, v.len() - p.len());
        assert(x@ =~= v@.take(v@.len() - p@.len()));
        Some(x)
    } else {
        None
    }
}

/// `str::split_once` on a character: the text before and after its first
/// occurrence.
pub open spec fn split_once(s: Seq<char>, c: char) -> Option<(Seq<char>, Seq<char>)> {
    let k = char_index_from(s, c, 0);
    if k >= s.len() {
        None
    } else {
        Some((s.take(k), s.skip(k + 1)))
    }
}

/// `str::split_once` on a character.
pub fn split_once_chars(v: &Vec<char>, c: char) -> (r: Option<(Vec<char>, Vec<char>)>)
    ensures
        r matches Some(x) ==> split_once(v@, c) == Some((x.0@, x.1@)),
        r is None ==> split_once(v@, c) is None,
{
    proof {
        lemma_char_index_from(v@, c, 0);
    }
    let k = char_index(v, c, 0);
    if k >= v.len() {
        None
    } else {
        let a = slice(v, 0, k);
        let b = slice(v, k + 1, v.len());
        assert(a@ =~= v@.take(k as int));
        assert(b@ =~= v@.skip(k + 1));
        Some((a, b))
    }
}

/// Whether `c` is an ASCII decimal digit.
pub open spec fn is_digit(c: char) -> bool {
    '0' <= c && c <= '9'
}

/// The value of a string of decimal digits.
pub open spec fn digits_value(s: Seq<char>) -> nat
    decreases s.len(),
{
    if s.len() == 0 {
        0
    } else {
        digits_value(s.drop_last()) * 10 + ((s.last() as u32) - 48) as nat
    }
}

/// Whether every character of `s` is a decimal digit.
pub open spec fn all_digits(s: Seq<char>) -> bool {
    forall|i: int| 0 <= i < s.len() ==> is_digit(#[trigger] s[i])
}

/// What `str::parse::<u64>` gives: an optional `+`, then at least one digit,
/// and a value that fits.
pub open spec fn parse_u64(s: Seq<char>) -> Option<u64> {
    let d = if s.len() > 0 && s[0] == '+' {
        s.drop_first()
    } else {
        s
    };
    if d.len() > 0 && all_digits(d) && digits_value(d) <= u64::MAX {
        Some(digits_value(d) as u64)
    } else {
        None
    }
}

pub proof fn lemma_digits_value_grows(s: Seq<char>, i: int, j: int)
    requires
        0 <= i <= j <= s.len(),
        all_digits(s),
    ensures
        digits_value(s.take(i)) <= digits_value(s.take(j)),
    decreases j - i,
{
    if i < j {
        lemma_digits_value_grows(s, i, j - 1);
        assert(s.take(j).drop_last() =~= s.take(j - 1));
        assert(is_digit(s[j - 1]));
    }
}

/// `str::parse::<u64>`.
pub fn parse_u64_chars(v: &Vec<char>) -> (r: Option<u64>)
    ensures
        r == parse_u64(v@),
{
    let start: usize = if v.len() > 0 && v[0] == '+' {
        1
    } else {
        0
    };
    let ghost d = if v@.len() > 0 && v@[0] == '+' {
        v@.drop_first()
    } else {
        v@
    };
    assert(d =~= v@.skip(start as int));
    if start >= v.len() {
        return None;
    }
    let mut value: u64 = 0;
    let mut i: usize = start;
    while i < v.len()
        invariant
            start <= i <= v.len(),
            start < v.len(),
            d == v@.skip(start as int),
            d == (if v@.len() > 0 && v@[0] == '+' {
                v@.drop_first()
            } else {
                v@
            }),
            value as nat == digits_value(d.take(i - start)),
            forall|k: int| 0 <= k < i - start ==> is_digit(#[trigger] d[k]),
        decreases v.len() - i,
    {
        let c = v[i];
        if !('0' <= c && c <= '9') {
            assert(!is_digit(d[i - start]));
            return None;
        }
        let digit: u64 = (c as u32 - 48) as u64;
        assert(d.take(i + 1 - start).drop_last() =~= d.take(i - start));
        if value > (u64::MAX - digit) / 10 {
            proof {
                assert(digits_value(d.take(i + 1 - start)) > u64::MAX) by (nonlinear_arith)
                    requires
                        value > (u64::MAX - digit) / 10,
                        digits_value(d.take(i + 1 - start)) == value * 10 + digit,
                        digit < 10,
                ;
                if all_digits(d) {
                    lemma_digits_value_grows(d, i + 1 - start, d.len() as int);
                    assert(d.take(d.len() as int) =~= d);
                }
            }
            return None;
        }
        value = value * 10 + digit;
        i = i + 1;
    }
    assert(d.take(i - start) =~= d);
    Some(value)
}


/// Whether two strings hold the same characters.
pub fn str_eq(a: &str, b: &str) -> (r: bool)
    ensures
        r == (a@ == b@),
{
    chars_eq(&to_chars(a), &to_chars(b))
}

/// `p` is found first at `k` when it occurs there and nowhere in `[i, k)`.
pub proof fn lemma_find_from_at(s: Seq<char>, p: Seq<char>, i: int, k: int)
    requires
        0 <= i <= k,
        matches_at(s, p, k),
        forall|m: int| i <= m < k ==> !matches_at(s, p, m),
    ensures
        find_from(s, p, i) == Some(k),
    decreases k - i,
{
    if i < k {
        lemma_find_from_at(s, p, i + 1, k);
    }
}

/// `c` is found first at `k` when it is there and nowhere in `[i, k)`.
pub proof fn lemma_char_index_at(s: Seq<char>, c: char, i: int, k: int)
    requires
        0 <= i <= k < s.len(),
        s[k] == c,
        forall|m: int| i <= m < k ==> s[m] != c,
    ensures
        char_index_from(s, c, i) == k,
    decreases k - i,
{
    if i < k {
        lemma_char_index_at(s, c, i + 1, k);
    }
}

/// A run of three hyphens in `a + b` lies in `a` or in `b` unless `a` ends
/// and `b` begins with a hyphen.
pub proof fn lemma_no_dash_run_concat(a: Seq<char>, b: Seq<char>)
    requires
        !contains(a, "---"@),
        !contains(b, "---"@),
        a.len() == 0 || b.len() == 0 || a.last() != '-' || b[0] != '-',
    ensures
        !contains(a + b, "---"@),
{
    reveal_strlit("---");
    let s = a + b;
    if contains(s, "---"@) {
        let m = choose|m: int| matches_at(s, "---"@, m);
        assert(s[m] == '-' && s[m + 1] == '-' && s[m + 2] == '-') by {
            assert(s.subrange(m, m + 3)[0] == '-');
            assert(s.subrange(m, m + 3)[1] == '-');
            assert(s.subrange(m, m + 3)[2] == '-');
        }
        if m + 3 <= a.len() {
            assert(a.subrange(m, m + 3) =~= s.subrange(m, m + 3));
            assert(matches_at(a, "---"@, m));
        } else if m >= a.len() {
            assert(b.subrange(m - a.len(), m - a.len() + 3) =~= s.subrange(m, m + 3));
            assert(matches_at(b, "---"@, m - a.len()));
        } else {
            assert(s[a.len() - 1] == a.last());
            assert(s[a.len() as int] == b[0]);
        }
    }
}

/// Text without any hyphen holds no run of three.
pub proof fn lemma_no_dash_run(s: Seq<char>)
    requires
        forall|k: int| 0 <= k < s.len() ==> s[k] != '-',
    ensures
        !contains(s, "---"@),
{
    reveal_strlit("---");
    if contains(s, "---"@) {
        let m = choose|m: int| matches_at(s, "---"@, m);
        assert(s.subrange(m, m + 3)[0] == '-');
    }
}

/// Searching `pre + s` past `pre` is searching `s`.
pub proof fn lemma_char_index_shift(pre: Seq<char>, s: Seq<char>, c: char, i: int)
    requires
        0 <= i <= s.len(),
    ensures
        char_index_from(pre + s, c, pre.len() + i) == pre.len() + char_index_from(s, c, i),
    decreases s.len() - i,
{
    if i < s.len() && s[i] != c {
        lemma_char_index_shift(pre, s, c, i + 1);
    }
}

/// The lines of `pre + s` past `pre` are the lines of `s`.
pub proof fn lemma_lines_shift(pre: Seq<char>, s: Seq<char>, i: int)
    requires
        0 <= i <= s.len(),
    ensures
        lines_from(pre + s, pre.len() + i) == lines_from(s, i),
    decreases s.len() - i,
{
    let x = pre + s;
    if i < s.len() {
        lemma_char_index_shift(pre, s, '\n', i);
        lemma_char_index_from(s, '\n', i);
        let j = char_index_from(s, '\n', i);
        assert(x.subrange(pre.len() + i, pre.len() + j) =~= s.subrange(i, j));
        if j < s.len() {
            lemma_lines_shift(pre, s, j + 1);
        }
    }
}

/// A line without a line break, followed by one: the first of the lines.
pub proof fn lemma_lines_cons(l: Seq<char>, rest: Seq<char>)
    requires
        !has_char(l, '\n'),
        strip_cr(l) == l,
    ensures
        lines(l + seq!['\n'] + rest) == seq![l] + lines(rest),
{
    let pre = l + seq!['\n'];
    let x = pre + rest;
    assert(x[l.len() as int] == '\n');
    assert forall|m: int| 0 <= m < l.len() implies x[m] != '\n' by {
        assert(x[m] == l[m]);
    }
    lemma_char_index_at(x, '\n', 0, l.len() as int);
    assert(x.subrange(0, l.len() as int) =~= l);
    lemma_lines_shift(pre, rest, 0);
    assert(lines_from(x, 0) == seq![strip_cr(x.subrange(0, l.len() as int))] + lines_from(
        x,
        l.len() + 1int,
    ));
}

/// `str::split_once` at the first `c`, which follows a text without one.
pub proof fn lemma_split_once_at(k: Seq<char>, c: char, rest: Seq<char>)
    requires
        !has_char(k, c),
    ensures
        split_once(k + seq![c] + rest, c) == Some((k, rest)),
{
    let x = k + seq![c] + rest;
    assert(x[k.len() as int] == c);
    assert forall|m: int| 0 <= m < k.len() implies x[m] != c by {
        assert(x[m] == k[m]);
    }
    lemma_char_index_at(x, c, 0, k.len() as int);
    assert(x.take(k.len() as int) =~= k);
    assert(x.skip(k.len() + 1int) =~= rest);
}

/// Leading white space ends one place later behind one more character.
pub proof fn lemma_ws_run_end_cons(c: char, s: Seq<char>, i: int)
    requires
        0 <= i <= s.len(),
    ensures
        ws_run_end(seq![c] + s, i + 1) == ws_run_end(s, i) + 1,
    decreases s.len() - i,
{
    if i < s.len() && is_ws(s[i]) {
        lemma_ws_run_end_cons(c, s, i + 1);
    }
}

/// A space in front changes nothing that `trim` keeps.
pub proof fn lemma_trim_space_prefix(s: Seq<char>)
    ensures
        trim(seq![' '] + s) == trim(s),
{
    let x = seq![' '] + s;
    lemma_ws_run_end_cons(' ', s, 0);
    lemma_ws_run_end_bounds(s, 0);
    assert(ws_run_end(x, 0) == ws_run_end(x, 1));
    assert(trim_start(x) =~= trim_start(s));
}

/// A text that neither begins nor ends with white space is its own trim.
pub proof fn lemma_trim_fixed(s: Seq<char>)
    requires
        s.len() == 0 || (!is_ws(s[0]) && !is_ws(s.last())),
    ensures
        trim(s) == s,
        trim_start(s) == s,
{
    assert(ws_run_end(s, 0) == 0);
    assert(trim_start(s) =~= s);
    assert(ws_run_start(s, s.len() as int) == s.len());
    assert(trim_end(s) =~= s);
}

/// A nonempty text that is its own trim neither begins nor ends with white
/// space.
/// Trimming twice is trimming once.
pub proof fn lemma_trim_idempotent(s: Seq<char>)
    ensures
        trim(trim(s)) == trim(s),
{
    lemma_ws_run_end_bounds(s, 0);
    let a = trim_start(s);
    lemma_ws_run_start_bounds(a, a.len() as int);
    let t = trim(s);
    if t.len() > 0 {
        assert(t[0] == a[0]);
        assert(t.last() == a[ws_run_start(a, a.len() as int) - 1]);
    }
    lemma_trim_fixed(t);
}

pub proof fn lemma_trim_fixed_ends(s: Seq<char>)
    requires
        trim(s) == s,
        s.len() > 0,
    ensures
        !is_ws(s[0]),
        !is_ws(s.last()),
{
    lemma_ws_run_end_bounds(s, 0);
    let e = ws_run_end(s, 0);
    let t = s.subrange(e, s.len() as int);
    lemma_ws_run_start_bounds(t, t.len() as int);
    assert(trim(s).len() == ws_run_start(t, t.len() as int));
    assert(e == 0);
    assert(t =~= s);
    if is_ws(s[0]) {
        lemma_ws_run_end_bounds(s, 1);
    }
}

/// The decimal text of a number: digits only, at least one, and their value
/// is the number.
pub proof fn lemma_decimal_digits(n: nat)
    ensures
        decimal(n).len() > 0,
        all_digits(decimal(n)),
        digits_value(decimal(n)) == n,
    decreases n,
{
    if n < 10 {
        let c = digit_char(n);
        assert(c as u32 == n + 48);
        assert(decimal(n).drop_last() =~= Seq::<char>::empty());
        assert(decimal(n).last() == c);
        assert(digits_value(Seq::<char>::empty()) == 0);
        assert(digits_value(decimal(n)) == 0 * 10 + ((c as u32) - 48) as nat);
    } else {
        lemma_decimal_digits(n / 10);
        let c = digit_char(n % 10);
        assert(c as u32 == n % 10 + 48);
        assert(decimal(n).drop_last() =~= decimal(n / 10));
        assert(decimal(n).last() == c);
        assert(digits_value(decimal(n)) == digits_value(decimal(n / 10)) * 10 + ((c as u32) - 48) as nat);
        assert(n == (n / 10) * 10 + n % 10);
    }
}

/// Neither part holding `c`, their concatenation does not.
pub proof fn lemma_no_char_concat(a: Seq<char>, b: Seq<char>, c: char)
    requires
        !has_char(a, c),
        !has_char(b, c),
    ensures
        !has_char(a + b, c),
{
    assert forall|k: int| 0 <= k < (a + b).len() implies (a + b)[k] != c by {
        if k < a.len() {
            assert((a + b)[k] == a[k]);
        } else {
            assert((a + b)[k] == b[k - a.len()]);
        }
    }
}

/// A lower-case hexadecimal digit.
pub open spec fn is_hex_digit(c: char) -> bool {
    ('0' <= c && c <= '9') || ('a' <= c && c <= 'f')
}

/// `hex_fixed` writes `w` hexadecimal digits.
pub proof fn lemma_hex_fixed_digits(n: nat, w: nat)
    ensures
        hex_fixed(n, w).len() == w,
        forall|k: int| 0 <= k < w ==> is_hex_digit(#[trigger] hex_fixed(n, w)[k]),
    decreases w,
{
    if w > 0 {
        lemma_hex_fixed_digits(n / 16, (w - 1) as nat);
        let d = n % 16;
        if d < 10 {
            assert(hex_char(d) as u32 == d + 48);
        } else {
            assert(hex_char(d) as u32 == d + 87);
        }
        assert(is_hex_digit(hex_char(d)));
    }
}

/// `16` to the power `w`.
pub open spec fn pow16(w: nat) -> nat
    decreases w,
{
    if w == 0 {
        1
    } else {
        16 * pow16((w - 1) as nat)
    }
}

/// Below `16^w`, the `w` hexadecimal digits of a number tell it apart.
pub proof fn lemma_hex_fixed_injective(n: nat, m: nat, w: nat)
    requires
        n < pow16(w),
        m < pow16(w),
        hex_fixed(n, w) == hex_fixed(m, w),
    ensures
        n == m,
    decreases w,
{
    if w > 0 {
        let p = pow16((w - 1) as nat);
        let a = hex_fixed(n, w);
        let b = hex_fixed(m, w);
        assert(a.last() == hex_char(n % 16));
        assert(b.last() == hex_char(m % 16));
        let dn = n % 16;
        let dm = m % 16;
        if dn < 10 {
            assert(hex_char(dn) as u32 == dn + 48);
        } else {
            assert(hex_char(dn) as u32 == dn + 87);
        }
        if dm < 10 {
            assert(hex_char(dm) as u32 == dm + 48);
        } else {
            assert(hex_char(dm) as u32 == dm + 87);
        }
        assert(dn == dm);
        assert(a.drop_last() =~= hex_fixed(n / 16, (w - 1) as nat));
        assert(b.drop_last() =~= hex_fixed(m / 16, (w - 1) as nat));
        assert(n / 16 < p) by (nonlinear_arith)
            requires
                n < 16 * p,
        ;
        assert(m / 16 < p) by (nonlinear_arith)
            requires
                m < 16 * p,
        ;
        lemma_hex_fixed_injective(n / 16, m / 16, (w - 1) as nat);
        assert(n == 16 * (n / 16) + n % 16) by (nonlinear_arith);
        assert(m == 16 * (m / 16) + m % 16) by (nonlinear_arith);
    }
}

/// Past a line break, the lines of `a + b` are the lines of `a` followed by
/// those of `b`.
pub proof fn lemma_lines_append(a: Seq<char>, b: Seq<char>)
    requires
        a.len() == 0 || a.last() == '\n',
    ensures
        lines(a + b) == lines(a) + lines(b),
{
    lemma_lines_append_from(a, b, 0);
}

proof fn lemma_lines_append_from(a: Seq<char>, b: Seq<char>, i: int)
    requires
        a.len() == 0 || a.last() == '\n',
        0 <= i <= a.len(),
    ensures
        lines_from(a + b, i) == lines_from(a, i) + lines(b),
    decreases a.len() - i,
{
    let x = a + b;
    if i == a.len() {
        lemma_lines_shift(a, b, 0);
        assert(lines_from(a, i) =~= Seq::<Seq<char>>::empty());
        assert(lines_from(a, i) + lines(b) =~= lines(b));
    } else {
        lemma_char_index_from(a, '\n', i);
        let j = char_index_from(a, '\n', i);
        if j == a.len() {
            assert(a[a.len() - 1] == '\n');
            assert(false);
        }
        assert forall|m: int| i <= m < j implies x[m] != '\n' by {
            assert(x[m] == a[m]);
        }
        assert(x[j] == '\n');
        lemma_char_index_at(x, '\n', i, j);
        assert(x.subrange(i, j) =~= a.subrange(i, j));
        lemma_lines_append_from(a, b, j + 1);
        assert(lines_from(a + b, i) =~= lines_from(a, i) + lines(b));
    }
}

/// Splitting at `c` past a piece without `c`: that piece, then the pieces
/// of the rest.
pub proof fn lemma_split_cons(k: Seq<char>, c: char, rest: Seq<char>)
    requires
        !has_char(k, c),
    ensures
        split(k + seq![c] + rest, c) == seq![k] + split(rest, c),
{
    let pre = k + seq![c];
    let x = pre + rest;
    assert(x[k.len() as int] == c);
    assert forall|m: int| 0 <= m < k.len() implies x[m] != c by {
        assert(x[m] == k[m]);
    }
    lemma_char_index_at(x, c, 0, k.len() as int);
    assert(x.subrange(0, k.len() as int) =~= k);
    lemma_split_shift(pre, rest, c, 0);
}

/// The pieces of `pre + s` past `pre` are the pieces of `s`.
pub proof fn lemma_split_shift(pre: Seq<char>, s: Seq<char>, c: char, i: int)
    requires
        0 <= i <= s.len(),
    ensures
        split_from(pre + s, c, pre.len() + i) == split_from(s, c, i),
    decreases s.len() + 1 - i,
{
    let x = pre + s;
    lemma_char_index_shift(pre, s, c, i);
    lemma_char_index_from(s, c, i);
    let j = char_index_from(s, c, i);
    if j < s.len() {
        assert(x.subrange(pre.len() + i, pre.len() + j) =~= s.subrange(i, j));
        lemma_split_shift(pre, s, c, j + 1);
    } else {
        assert(x.subrange(pre.len() + i, x.len() as int) =~= s.subrange(i, s.len() as int));
    }
}

/// A text without `c` is one piece.
pub proof fn lemma_split_single(k: Seq<char>, c: char)
    requires
        !has_char(k, c),
    ensures
        split(k, c) == seq![k],
{
    if k.len() > 0 {
        assert forall|m: int| 0 <= m < k.len() implies k[m] != c by {}
        lemma_char_index_from(k, c, 0);
        if char_index_from(k, c, 0) < k.len() {
            assert(k[char_index_from(k, c, 0)] == c);
        }
    }
    assert(k.subrange(0, k.len() as int) =~= k);
}
} // verus!
