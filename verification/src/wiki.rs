//! The local wiki's formats and logic: page files with frontmatter, links,
//! source kinds and hashes, ranking and context for queries, lint issues and
//! the source record table.

use vstd::prelude::*;
use crate::text::{
    all_digits, contains, decimal, digits_value, find_chars, find_from, has_char, hex_fixed,
    hex_fixed_chars, is_digit, is_text, lemma_decimal_digits, lemma_digits_value_grows,
    lemma_find_from, lemma_find_from_at, lemma_lines_cons, lemma_no_char_concat, lemma_no_dash_run,
    lemma_no_dash_run_concat, lemma_split_once_at, lemma_trim_fixed, lemma_trim_fixed_ends,
    lemma_trim_space_prefix, lemma_ws_run_end_bounds, lemma_ws_run_end_cons, lines, lines_chars,
    matches_at, owned, slice, split_once, split_once_chars, string_of, to_chars, trim, trim_chars,
    trim_start, trim_start_chars, u64_text, views, ws_run_end,
};
use crate::types::{lemma_uuid_text_shape, uuid_text, uuid_text_of, WikiPage, WikiStatus};

verus! {

/// The 64-bit FNV-1a hash of some bytes.
pub open spec fn fnv1a(b: Seq<u8>) -> u64
    decreases b.len(),
{
    if b.len() == 0 {
        0xcbf29ce484222325u64
    } else {
        (((fnv1a(b.drop_last()) ^ (b.last() as u64)) as nat * 0x100000001b3nat)
            % 0x1_0000_0000_0000_0000nat) as u64
    }
}

/// The FNV-1a hash of some bytes as 16 lower-case hexadecimal digits.
pub fn fnv1a_hex(bytes: &[u8]) -> (s: String)
    ensures
        s@ == hex_fixed(fnv1a(bytes@) as nat, 16),
{
    let mut hash: u64 = 0xcbf29ce484222325u64;
    let mut i: usize = 0;
    while i < bytes.len()
        invariant
            i <= bytes@.len(),
            hash == fnv1a(bytes@.take(i as int)),
        decreases bytes@.len() - i,
    {
        assert(bytes@.take(i + 1).drop_last() =~= bytes@.take(i as int));
        hash = (hash ^ (bytes[i] as u64)).wrapping_mul(0x100000001b3u64);
        i = i + 1;
    }
    assert(bytes@.take(i as int) =~= bytes@);
    string_of(&hex_fixed_chars(hash as u128, 16))
}

/// The `[[link]]` targets in `raw[i..]`, each trimmed, in order.
pub open spec fn links_from(raw: Seq<char>, i: int) -> Seq<Seq<char>>
    decreases raw.len() - i,
{
    if i < 0 || i > raw.len() {
        seq![]
    } else {
        match find_from(raw, "[["@, i) {
            None => seq![],
            Some(start) => {
                let open_end = start + 2;
                match find_from(raw, "]]"@, open_end) {
                    None => seq![],
                    Some(end) => {
                        proof {
                            lemma_find_from(raw, "[["@, i);
                            lemma_find_from(raw, "]]"@, open_end);
                            reveal_strlit("[[");
                            reveal_strlit("]]");
                        }
                        seq![trim(raw.subrange(open_end, end))] + links_from(raw, end + 2)
                    },
                }
            },
        }
    }
}

/// The `[[link]]` targets of a page's text.
pub open spec fn wikilinks_of(raw: Seq<char>) -> Seq<Seq<char>> {
    links_from(raw, 0)
}

/// The `[[link]]` targets of a page's text, trimmed, in order.
pub fn wikilinks(raw: &str) -> (r: Vec<String>)
    ensures
        r@.map_values(|s: String| s@) == wikilinks_of(raw@),
{
    let v = to_chars(raw);
    let open = to_chars("[[");
    let close = to_chars("]]");
    proof {
        reveal_strlit("[[");
        reveal_strlit("]]");
    }
    let mut links: Vec<String> = Vec::new();
    let mut i: usize = 0;
    loop
        invariant
            i <= v@.len(),
            v@ == raw@,
            open@ == "[["@,
            close@ == "]]"@,
            open@.len() == 2,
            close@.len() == 2,
            wikilinks_of(raw@) == links@.map_values(|s: String| s@) + links_from(v@, i as int),
        decreases v@.len() - i,
    {
        proof {
            lemma_find_from(v@, open@, i as int);
        }
        let start = match find_chars(&v, &open, i) {
            Some(s) => s,
            None => {
                assert(links@.map_values(|s: String| s@) + links_from(v@, i as int) =~= links@.map_values(|s: String| s@));
                return links;
            },
        };
        assert(start + 2 <= v.len());
        proof {
            lemma_find_from(v@, close@, start + 2);
        }
        let end = match find_chars(&v, &close, start + 2) {
            Some(e) => e,
            None => {
                assert(links@.map_values(|s: String| s@) + links_from(v@, i as int) =~= links@.map_values(|s: String| s@));
                return links;
            },
        };
        let inner = trim_chars(&slice(&v, start + 2, end));
        let ghost before = links@;
        links.push(string_of(&inner));
        assert(links@.map_values(|s: String| s@) =~= before.map_values(|s: String| s@).push(inner@));
        assert(links@.map_values(|s: String| s@) + links_from(v@, end + 2) =~= before.map_values(|s: String| s@) + links_from(v@, i as int));
        i = end + 2;
    }
}


/// The `Debug` name of a page status.
pub open spec fn wiki_status_name(s: WikiStatus) -> Seq<char> {
    match s {
        WikiStatus::Active => "Active"@,
        WikiStatus::Conflict => "Conflict"@,
        WikiStatus::Archived => "Archived"@,
    }
}

pub fn wiki_status_text(s: WikiStatus) -> (r: &'static str)
    ensures
        r@ == wiki_status_name(s),
{
    match s {
        WikiStatus::Active => "Active",
        WikiStatus::Conflict => "Conflict",
        WikiStatus::Archived => "Archived",
    }
}

/// One frontmatter line: `key: value` and a line break.
pub open spec fn front_line(key: Seq<char>, value: Seq<char>) -> Seq<char> {
    key + ": "@ + value + "\n"@
}

/// The frontmatter lines of a page file, in the order it holds them.
pub open spec fn front_lines(p: WikiPage) -> Seq<char> {
    front_line("id"@, uuid_text_of(p.id)) + front_line("title"@, p.title@) + front_line(
        "type"@,
        p.domain@,
    ) + front_line("domain"@, p.domain@) + front_line(
        "source_count"@,
        decimal(p.source_count as nat),
    ) + front_line("confidence"@, p.confidence@) + front_line(
        "status"@,
        wiki_status_name(p.status),
    )
}

/// A page file: its frontmatter between `---` lines, then the body.
pub open spec fn page_text(p: WikiPage) -> Seq<char> {
    "---\n"@ + front_lines(p) + "---\n"@ + p.body@
}

fn push_front_line(s: &mut String, key: &str, value: &str)
    ensures
        final(s)@ == old(s)@ + front_line(key@, value@),
{
    s.append(key);
    s.append(": ");
    s.append(value);
    s.append("\n");
    assert(s@ =~= old(s)@ + front_line(key@, value@));
}

/// Writes a page file.
pub fn render_page(page: &WikiPage) -> (s: String)
    ensures
        s@ == page_text(*page),
{
    let mut s = owned("---\n");
    let id = uuid_text(page.id);
    push_front_line(&mut s, "id", id.as_str());
    push_front_line(&mut s, "title", page.title.as_str());
    push_front_line(&mut s, "type", page.domain.as_str());
    push_front_line(&mut s, "domain", page.domain.as_str());
    let n = u64_text(page.source_count as u64);
    push_front_line(&mut s, "source_count", n.as_str());
    push_front_line(&mut s, "confidence", page.confidence.as_str());
    push_front_line(&mut s, "status", wiki_status_text(page.status));
    s.append("---\n");
    s.append(page.body.as_str());
    assert(s@ =~= page_text(*page));
    s
}

/// What `uuid::Uuid::parse_str` gives for a text: the UUID's 128-bit value,
/// or the text of its error.
pub uninterp spec fn uuid_parsed(s: Seq<char>) -> Result<u128, Seq<char>>;

/// Whether a text is the hyphenated text of some UUID value.
pub open spec fn is_uuid_text(s: Seq<char>) -> bool {
    exists|id: u128| s == uuid_text_of(id)
}

/// The value whose hyphenated text `s` is.
pub open spec fn uuid_value(s: Seq<char>) -> u128 {
    choose|id: u128| uuid_text_of(id) == s
}

/// How a UUID text reads: the value whose lower-case hyphenated text it is,
/// and otherwise as `uuid::Uuid::parse_str` reads it.
pub open spec fn uuid_read(s: Seq<char>) -> Result<u128, Seq<char>> {
    if is_uuid_text(s) {
        Ok(uuid_value(s))
    } else {
        uuid_parsed(s)
    }
}

/// The text of a UUID value reads back as that value.
pub proof fn lemma_uuid_read_text(id: u128)
    ensures
        uuid_read(uuid_text_of(id)) == Ok::<u128, Seq<char>>(id),
{
    let t = uuid_text_of(id);
    assert(is_uuid_text(t));
    let v = uuid_value(t);
    crate::types::lemma_uuid_text_injective(v, id);
}

/// A result with the plain values of its error text.
pub open spec fn text_result<T>(r: Result<T, String>) -> Result<T, Seq<char>> {
    match r {
        Ok(x) => Ok(x),
        Err(e) => Err(e@),
    }
}

/// `uuid::Uuid::parse_str`, as the UUID's value or the error's text. The
/// lower-case hyphenated text that `Display` writes reads as the value it
/// was written from; other texts read as the parser reads them.
#[verifier::external_body]
pub(crate) fn parse_uuid(s: &str) -> (r: Result<u128, String>)
    ensures
        is_uuid_text(s@) ==> r is Ok && r->Ok_0 == uuid_value(s@),
        !is_uuid_text(s@) ==> text_result(r) == uuid_parsed(s@),
{
    match uuid::Uuid::parse_str(s) {
        Ok(id) => Ok(id.as_u128()),
        Err(e) => Err(e.to_string()),
    }
}

/// The digits of a `u32` text after an optional `+`, scanned from index
/// `i` with the value `acc` so far, as `str::parse::<u32>` scans them: an
/// invalid digit and then an overflow are reported at the first place they
/// occur.
pub open spec fn u32_scan(d: Seq<char>, i: int, acc: nat) -> Result<u32, Seq<char>>
    decreases d.len() - i,
{
    if i < 0 || i >= d.len() {
        if acc <= u32::MAX {
            Ok(acc as u32)
        } else {
            Err("number too large to fit in target type"@)
        }
    } else if !('0' <= d[i] && d[i] <= '9') {
        Err("invalid digit found in string"@)
    } else {
        let v = acc * 10 + ((d[i] as u32) - 48) as nat;
        if v > u32::MAX {
            Err("number too large to fit in target type"@)
        } else {
            u32_scan(d, i + 1, v)
        }
    }
}

/// What `str::parse::<u32>` gives: the value, or its error's text.
pub open spec fn u32_parsed(s: Seq<char>) -> Result<u32, Seq<char>> {
    if s.len() == 0 {
        Err("cannot parse integer from empty string"@)
    } else if s.len() == 1 && (s[0] == '+' || s[0] == '-') {
        Err("invalid digit found in string"@)
    } else if s[0] == '+' {
        u32_scan(s.drop_first(), 0, 0)
    } else {
        u32_scan(s, 0, 0)
    }
}

/// `str::parse::<u32>`.
pub fn parse_u32(s: &str) -> (r: Result<u32, String>)
    ensures
        text_result(r) == u32_parsed(s@),
{
    let v = to_chars(s);
    if v.len() == 0 {
        return Err(owned("cannot parse integer from empty string"));
    }
    if v.len() == 1 && (v[0] == '+' || v[0] == '-') {
        return Err(owned("invalid digit found in string"));
    }
    let start: usize = if v[0] == '+' {
        1
    } else {
        0
    };
    let ghost d = if v@[0] == '+' {
        v@.drop_first()
    } else {
        v@
    };
    assert(d =~= v@.skip(start as int));
    assert(u32_parsed(s@) == u32_scan(d, 0, 0));
    let mut acc: u32 = 0;
    let mut i: usize = start;
    while i < v.len()
        invariant
            start <= i <= v@.len(),
            d == v@.skip(start as int),
            v@ == s@,
            u32_parsed(s@) == u32_scan(d, 0, 0),
            u32_scan(d, 0, 0) == u32_scan(d, i - start, acc as nat),
        decreases v@.len() - i,
    {
        let c = v[i];
        if !('0' <= c && c <= '9') {
            return Err(owned("invalid digit found in string"));
        }
        let digit: u32 = c as u32 - 48;
        if acc > (u32::MAX - digit) / 10 {
            assert(acc * 10 + digit > u32::MAX) by (nonlinear_arith)
                requires
                    acc > (u32::MAX - digit) / 10,
                    digit < 10,
            ;
            return Err(owned("number too large to fit in target type"));
        }
        acc = acc * 10 + digit;
        i = i + 1;
    }
    Ok(acc)
}

/// `str::splitn(3, "---")` on a page: the text before the first `---`,
/// the frontmatter up to the next `---`, and the rest, when present.
pub open spec fn page_parts(raw: Seq<char>) -> (Option<Seq<char>>, Option<Seq<char>>) {
    match find_from(raw, "---"@, 0) {
        None => (None, None),
        Some(k1) => match find_from(raw, "---"@, k1 + 3) {
            None => (Some(raw.subrange(k1 + 3, raw.len() as int)), None),
            Some(k2) => (Some(raw.subrange(k1 + 3, k2)), Some(raw.subrange(k2 + 3, raw.len() as int))),
        },
    }
}

/// The frontmatter fields read so far.
pub struct Front {
    pub id: Option<u128>,
    pub title: Option<Seq<char>>,
    pub domain: Option<Seq<char>>,
    pub source_count: u32,
    pub confidence: Seq<char>,
    pub status: WikiStatus,
}

/// The frontmatter before any line is read.
pub open spec fn front_start() -> Front {
    Front {
        id: None,
        title: None,
        domain: None,
        source_count: 1,
        confidence: "1"@,
        status: WikiStatus::Active,
    }
}

/// The frontmatter after a `key: value` line, with key and value trimmed:
/// the field the key names takes the value; other keys change nothing.
pub open spec fn front_set(f: Front, key: Seq<char>, value: Seq<char>) -> Result<Front, Seq<char>> {
    if key == "id"@ {
        match uuid_read(value) {
            Ok(id) => Ok(Front { id: Some(id), ..f }),
            Err(e) => Err(e),
        }
    } else if key == "title"@ {
        Ok(Front { title: Some(value), ..f })
    } else if key == "domain"@ || key == "type"@ {
        Ok(Front { domain: Some(value), ..f })
    } else if key == "source_count"@ {
        match u32_parsed(value) {
            Ok(n) => Ok(Front { source_count: n, ..f }),
            Err(e) => Err(e),
        }
    } else if key == "confidence"@ {
        Ok(Front { confidence: value, ..f })
    } else if key == "status"@ {
        Ok(
            Front {
                status: if value == "Conflict"@ {
                    WikiStatus::Conflict
                } else if value == "Archived"@ {
                    WikiStatus::Archived
                } else {
                    WikiStatus::Active
                },
                ..f
            },
        )
    } else {
        Ok(f)
    }
}

/// The frontmatter after one more line: a line with a `:` sets a field by
/// its trimmed key and value; other lines change nothing.
pub open spec fn front_step(f: Front, line: Seq<char>) -> Result<Front, Seq<char>> {
    match split_once(line, ':') {
        None => Ok(f),
        Some((key, value)) => front_set(f, trim(key), trim(value)),
    }
}

/// The frontmatter after its first `n` lines, or the first error.
pub open spec fn front_after(ls: Seq<Seq<char>>, n: nat) -> Result<Front, Seq<char>>
    decreases n,
{
    if n == 0 {
        Ok(front_start())
    } else {
        match front_after(ls, (n - 1) as nat) {
            Ok(f) => front_step(f, ls[n - 1]),
            Err(e) => Err(e),
        }
    }
}

/// A page as plain values.
pub struct PageView {
    pub id: u128,
    pub title: Seq<char>,
    pub domain: Seq<char>,
    pub source_count: u32,
    pub confidence: Seq<char>,
    pub status: WikiStatus,
    pub body: Seq<char>,
}

impl View for WikiPage {
    type V = PageView;

    open spec fn view(&self) -> PageView {
        PageView {
            id: self.id,
            title: self.title@,
            domain: self.domain@,
            source_count: self.source_count,
            confidence: self.confidence@,
            status: self.status,
            body: self.body@,
        }
    }
}

/// What reading a page file gives: the page, or the text of what is wrong.
pub open spec fn page_of(raw: Seq<char>) -> Result<PageView, Seq<char>> {
    let (front, rest) = page_parts(raw);
    match front {
        None => Err("missing frontmatter"@),
        Some(fm) => {
            let ls = lines(fm);
            match front_after(ls, ls.len()) {
                Err(e) => Err(e),
                Ok(f) => if f.id is None {
                    Err("missing id"@)
                } else if f.title is None {
                    Err("missing title"@)
                } else if f.domain is None {
                    Err("missing domain"@)
                } else {
                    Ok(
                        PageView {
                            id: f.id->0,
                            title: f.title->0,
                            domain: f.domain->0,
                            source_count: f.source_count,
                            confidence: f.confidence,
                            status: f.status,
                            body: match rest {
                                Some(b) => trim_start(b),
                                None => seq![],
                            },
                        },
                    )
                },
            }
        },
    }
}


/// The frontmatter fields read so far, as the parser holds them.
struct FrontFields {
    id: Option<u128>,
    title: Option<String>,
    domain: Option<String>,
    source_count: u32,
    confidence: String,
    status: WikiStatus,
}

impl View for FrontFields {
    type V = Front;

    closed spec fn view(&self) -> Front {
        Front {
            id: self.id,
            title: crate::text::opt_view(self.title),
            domain: crate::text::opt_view(self.domain),
            source_count: self.source_count,
            confidence: self.confidence@,
            status: self.status,
        }
    }
}

/// Reads one frontmatter line into the fields.
fn read_front_line(f: &mut FrontFields, line: &Vec<char>) -> (r: Result<(), String>)
    ensures
        match front_step(old(f)@, line@) {
            Ok(g) => r is Ok && final(f)@ == g,
            Err(e) => r matches Err(m) && m@ == e,
        },
{
    let (key0, value0) = match split_once_chars(line, ':') {
        Some(x) => x,
        None => {
            return Ok(());
        },
    };
    let key = trim_chars(&key0);
    let value = trim_chars(&value0);
    if is_text(&key, "id") {
        let text = string_of(&value);
        match parse_uuid(text.as_str()) {
            Ok(id) => {
                f.id = Some(id);
                Ok(())
            },
            Err(e) => Err(e),
        }
    } else if is_text(&key, "title") {
        f.title = Some(string_of(&value));
        Ok(())
    } else if is_text(&key, "domain") || is_text(&key, "type") {
        f.domain = Some(string_of(&value));
        Ok(())
    } else if is_text(&key, "source_count") {
        let text = string_of(&value);
        match parse_u32(text.as_str()) {
            Ok(n) => {
                f.source_count = n;
                Ok(())
            },
            Err(e) => Err(e),
        }
    } else if is_text(&key, "confidence") {
        f.confidence = string_of(&value);
        Ok(())
    } else if is_text(&key, "status") {
        f.status = if is_text(&value, "Conflict") {
            WikiStatus::Conflict
        } else if is_text(&value, "Archived") {
            WikiStatus::Archived
        } else {
            WikiStatus::Active
        };
        Ok(())
    } else {
        Ok(())
    }
}

/// Reads a page file.
pub fn parse_page(raw: &str) -> (r: Result<WikiPage, String>)
    ensures
        match page_of(raw@) {
            Ok(p) => r matches Ok(q) && q@ == p,
            Err(e) => r matches Err(m) && m@ == e,
        },
{
    let v = to_chars(raw);
    let dash = to_chars("---");
    proof {
        reveal_strlit("---");
        lemma_find_from(v@, dash@, 0);
    }
    let k1 = match find_chars(&v, &dash, 0) {
        Some(k) => k,
        None => {
            return Err(owned("missing frontmatter"));
        },
    };
    assert(k1 + 3 <= v.len());
    let k2 = find_chars(&v, &dash, k1 + 3);
    proof {
        lemma_find_from(v@, dash@, k1 + 3);
    }
    let (fm, rest) = match k2 {
        Some(k) => {
            assert(k + 3 <= v.len());
            (slice(&v, k1 + 3, k), Some(slice(&v, k + 3, v.len())))
        },
        None => (slice(&v, k1 + 3, v.len()), None),
    };
    assert(page_parts(raw@).0 == Some(fm@));
    let ls = lines_chars(&fm);
    let mut f = FrontFields {
        id: None,
        title: None,
        domain: None,
        source_count: 1,
        confidence: owned("1"),
        status: WikiStatus::Active,
    };
    let ghost lsv = lines(fm@);
    let mut i: usize = 0;
    while i < ls.len()
        invariant
            i <= ls@.len(),
            views(ls@) == lsv,
            lsv == lines(fm@),
            page_parts(raw@).0 == Some(fm@),
            front_after(lsv, i as nat) == Ok::<Front, Seq<char>>(f@),
        decreases ls@.len() - i,
    {
        assert(lsv[i as int] == ls@[i as int]@);
        let ghost f0 = f@;
        match read_front_line(&mut f, &ls[i]) {
            Ok(()) => {},
            Err(e) => {
                assert(front_after(lsv, (i + 1) as nat) == front_step(f0, lsv[i as int]));
                proof {
                    lemma_front_after_err(lsv, (i + 1) as nat, lsv.len());
                }
                return Err(e);
            },
        }
        i = i + 1;
    }
    let id = match f.id {
        Some(id) => id,
        None => {
            return Err(owned("missing id"));
        },
    };
    let title = match f.title {
        Some(t) => t,
        None => {
            return Err(owned("missing title"));
        },
    };
    let domain = match f.domain {
        Some(d) => d,
        None => {
            return Err(owned("missing domain"));
        },
    };
    let body = match rest {
        Some(b) => string_of(&trim_start_chars(&b)),
        None => String::new(),
    };
    Ok(WikiPage {
        id,
        title,
        domain,
        source_count: f.source_count,
        confidence: f.confidence,
        status: f.status,
        body,
    })
}

/// An error in the frontmatter's first `n` lines stays the error of any
/// longer prefix.
pub proof fn lemma_front_after_err(ls: Seq<Seq<char>>, n: nat, m: nat)
    requires
        n <= m,
        front_after(ls, n) is Err,
    ensures
        front_after(ls, m) == front_after(ls, n),
    decreases m - n,
{
    if n < m {
        lemma_front_after_err(ls, n, (m - 1) as nat);
    }
}

/// A text field that a page file holds on one line and reads back as it
/// is: no white space at either end, no line break, no run of `---`.
pub open spec fn is_front_value(s: Seq<char>) -> bool {
    trim(s) == s && !has_char(s, '\n') && !contains(s, "---"@)
}

/// An ASCII letter or digit.
pub open spec fn is_word_char(c: char) -> bool {
    ('0' <= c && c <= '9') || ('a' <= c && c <= 'z') || ('A' <= c && c <= 'Z')
}

proof fn lemma_word_is_front_value(s: Seq<char>)
    requires
        forall|k: int| 0 <= k < s.len() ==> is_word_char(#[trigger] s[k]),
    ensures
        is_front_value(s),
{
    lemma_no_dash_run(s);
    if s.len() > 0 {
        assert(is_word_char(s[0]));
        assert(is_word_char(s[s.len() - 1]));
    }
    lemma_trim_fixed(s);
}

/// A frontmatter key: letters, digits and `_`.
pub open spec fn is_key(k: Seq<char>) -> bool {
    k.len() > 0 && forall|i: int| 0 <= i < k.len() ==> is_word_char(#[trigger] k[i]) || k[i] == '_'
}

proof fn lemma_keys()
    ensures
        is_key("id"@),
        is_key("title"@),
        is_key("type"@),
        is_key("domain"@),
        is_key("source_count"@),
        is_key("confidence"@),
        is_key("status"@),
{
    reveal_strlit("id");
    reveal_strlit("title");
    reveal_strlit("type");
    reveal_strlit("domain");
    reveal_strlit("source_count");
    reveal_strlit("confidence");
    reveal_strlit("status");
}

/// The values a page's frontmatter holds besides its text fields read back.
proof fn lemma_fixed_values(p: WikiPage)
    ensures
        is_front_value(uuid_text_of(p.id)),
        is_front_value(decimal(p.source_count as nat)),
        is_front_value(wiki_status_name(p.status)),
{
    let u = uuid_text_of(p.id);
    lemma_uuid_text_shape(p.id);
    lemma_trim_fixed(u);
    let n = decimal(p.source_count as nat);
    lemma_decimal_digits(p.source_count as nat);
    assert forall|k: int| 0 <= k < n.len() implies is_word_char(#[trigger] n[k]) by {
        assert(is_digit(n[k]));
    }
    lemma_word_is_front_value(n);
    lemma_status_name(p.status);
}

/// What a frontmatter line holds: its line, its key and value once split
/// and trimmed, and no `---`.
proof fn lemma_front_line(k: Seq<char>, v: Seq<char>, rest: Seq<char>)
    requires
        is_key(k),
        is_front_value(v),
    ensures
        !contains(front_line(k, v), "---"@),
        front_line(k, v).last() == '\n',
        lines(front_line(k, v) + rest) == seq![k + ": "@ + v] + lines(rest),
        split_once(k + ": "@ + v, ':') == Some((k, seq![' '] + v)),
        trim(k) == k,
        trim(seq![' '] + v) == v,
{
    reveal_strlit(": ");
    reveal_strlit("\n");
    reveal_strlit("---");
    let colon = ": "@;
    let nl = "\n"@;
    assert(colon =~= seq![':', ' ']);
    assert(nl =~= seq!['\n']);
    let l = k + colon + v;
    assert forall|i: int| 0 <= i < k.len() implies k[i] != '-' && k[i] != '\n' && k[i] != ':' by {
        assert(is_word_char(k[i]) || k[i] == '_');
    }
    lemma_no_dash_run(k);
    lemma_no_dash_run(colon);
    lemma_no_dash_run(nl);
    assert(k.last() != '-');
    lemma_no_dash_run_concat(k, colon);
    lemma_no_dash_run_concat(k + colon, v);
    lemma_no_dash_run_concat(l, nl);
    assert(!has_char(k, '\n'));
    assert(!has_char(colon, '\n'));
    lemma_no_char_concat(k, colon, '\n');
    lemma_no_char_concat(k + colon, v, '\n');
    if v.len() > 0 {
        lemma_trim_fixed_ends(v);
        assert(l.last() == v.last());
    } else {
        assert(l.last() == ' ');
    }
    assert(front_line(k, v) =~= l + seq!['\n']);
    assert(front_line(k, v) + rest =~= l + seq!['\n'] + rest);
    lemma_lines_cons(l, rest);
    assert(!has_char(k, ':'));
    lemma_split_once_at(k, ':', seq![' '] + v);
    assert(l =~= k + seq![':'] + (seq![' '] + v));
    assert(is_word_char(k[0]) || k[0] == '_');
    assert(is_word_char(k[k.len() - 1]) || k[k.len() - 1] == '_');
    lemma_trim_fixed(k);
    lemma_trim_space_prefix(v);
}

/// The name of a page status is a word.
proof fn lemma_status_name(s: WikiStatus)
    ensures
        is_front_value(wiki_status_name(s)),
        wiki_status_name(s) == "Conflict"@ <==> s == WikiStatus::Conflict,
        wiki_status_name(s) == "Archived"@ <==> s == WikiStatus::Archived,
{
    reveal_strlit("Active");
    reveal_strlit("Conflict");
    reveal_strlit("Archived");
    let n = wiki_status_name(s);
    assert forall|k: int| 0 <= k < n.len() implies is_word_char(#[trigger] n[k]) by {}
    lemma_word_is_front_value(n);
    assert("Archived"@[0] != "Conflict"@[0]);
}

/// The frontmatter block of a page file: a line break, then the lines.
pub open spec fn front_block(p: WikiPage) -> Seq<char> {
    "\n"@ + front_lines(p)
}

/// The lines of a page's frontmatter block, split at `: `.
pub open spec fn front_block_lines(p: WikiPage) -> Seq<Seq<char>> {
    seq![
        seq![],
        "id"@ + ": "@ + uuid_text_of(p.id),
        "title"@ + ": "@ + p.title@,
        "type"@ + ": "@ + p.domain@,
        "domain"@ + ": "@ + p.domain@,
        "source_count"@ + ": "@ + decimal(p.source_count as nat),
        "confidence"@ + ": "@ + p.confidence@,
        "status"@ + ": "@ + wiki_status_name(p.status),
    ]
}

/// The frontmatter block of a page whose text fields read back: its lines,
/// and no `---` in it.
proof fn lemma_front_block(p: WikiPage)
    requires
        is_front_value(p.title@),
        is_front_value(p.domain@),
        is_front_value(p.confidence@),
    ensures
        !contains(front_block(p), "---"@),
        front_block(p).last() == '\n',
        lines(front_block(p)) == front_block_lines(p),
{
    reveal_strlit("\n");
    reveal_strlit("---");
    lemma_keys();
    lemma_fixed_values(p);
    let u = uuid_text_of(p.id);
    let n = decimal(p.source_count as nat);
    let st = wiki_status_name(p.status);
    let f1 = front_line("id"@, u);
    let f2 = front_line("title"@, p.title@);
    let f3 = front_line("type"@, p.domain@);
    let f4 = front_line("domain"@, p.domain@);
    let f5 = front_line("source_count"@, n);
    let f6 = front_line("confidence"@, p.confidence@);
    let f7 = front_line("status"@, st);
    let r6 = f7;
    let r5 = f6 + r6;
    let r4 = f5 + r5;
    let r3 = f4 + r4;
    let r2 = f3 + r3;
    let r1 = f2 + r2;
    let ff = f1 + r1;
    assert(ff =~= front_lines(p));
    let e = Seq::<char>::empty();
    lemma_front_line("id"@, u, r1);
    lemma_front_line("title"@, p.title@, r2);
    lemma_front_line("type"@, p.domain@, r3);
    lemma_front_line("domain"@, p.domain@, r4);
    lemma_front_line("source_count"@, n, r5);
    lemma_front_line("confidence"@, p.confidence@, r6);
    lemma_front_line("status"@, st, e);
    assert(f7 + e =~= f7);
    lemma_no_dash_run_concat(f6, r6);
    lemma_no_dash_run_concat(f5, r5);
    lemma_no_dash_run_concat(f4, r4);
    lemma_no_dash_run_concat(f3, r3);
    lemma_no_dash_run_concat(f2, r2);
    lemma_no_dash_run_concat(f1, r1);
    assert(!contains("\n"@, "---"@));
    lemma_no_dash_run_concat("\n"@, ff);
    assert(front_block(p).last() == f7.last());
    assert(front_block(p) =~= e + seq!['\n'] + ff);
    assert(!has_char(e, '\n'));
    lemma_lines_cons(e, ff);
    assert(lines(e) =~= Seq::<Seq<char>>::empty());
    assert(lines(front_block(p)) =~= front_block_lines(p));
}

/// A page file is split at its first two `---`: into the frontmatter block
/// and a line break before the body.
proof fn lemma_page_parts_of_text(p: WikiPage)
    requires
        !contains(front_block(p), "---"@),
        front_block(p).last() == '\n',
    ensures
        page_parts(page_text(p)) == (Some(front_block(p)), Some("\n"@ + p.body@)),
{
    reveal_strlit("---");
    reveal_strlit("---\n");
    reveal_strlit("\n");
    let fm = front_block(p);
    let raw = page_text(p);
    let tail = "\n"@ + p.body@;
    assert(raw =~= "---"@ + fm + "---"@ + tail);
    let k2: int = fm.len() + 3int;
    assert(raw.subrange(0, 3) =~= "---"@);
    lemma_find_from_at(raw, "---"@, 0, 0);
    assert(raw.subrange(k2, k2 + 3) =~= "---"@);
    assert forall|m: int| 3 <= m < k2 implies !matches_at(raw, "---"@, m) by {
        if matches_at(raw, "---"@, m) {
            if m + 3 <= k2 {
                assert(fm.subrange(m - 3, m) =~= raw.subrange(m, m + 3));
                assert(matches_at(fm, "---"@, m - 3));
            } else {
                assert(raw[k2 - 1] == fm.last());
                assert(raw.subrange(m, m + 3)[k2 - 1 - m] == raw[k2 - 1]);
            }
        }
    }
    lemma_find_from_at(raw, "---"@, 3, k2);
    assert(raw.subrange(3, k2) =~= fm);
    assert(raw.subrange(k2 + 3, raw.len() as int) =~= tail);
}

/// The frontmatter of a page whose values read back sets each field once
/// more to the page's own value.
proof fn lemma_front_read(p: WikiPage)
    requires
        is_front_value(p.title@),
        is_front_value(p.domain@),
        is_front_value(p.confidence@),
    ensures
        front_after(front_block_lines(p), 8) == Ok::<Front, Seq<char>>(
            Front {
                id: Some(p.id),
                title: Some(p.title@),
                domain: Some(p.domain@),
                source_count: p.source_count,
                confidence: p.confidence@,
                status: p.status,
            },
        ),
{
    lemma_uuid_read_text(p.id);
    reveal_strlit("id");
    reveal_strlit("title");
    reveal_strlit("type");
    reveal_strlit("domain");
    reveal_strlit("source_count");
    reveal_strlit("confidence");
    reveal_strlit("status");
    lemma_keys();
    lemma_fixed_values(p);
    let e = Seq::<char>::empty();
    lemma_front_line("id"@, uuid_text_of(p.id), e);
    lemma_front_line("title"@, p.title@, e);
    lemma_front_line("type"@, p.domain@, e);
    lemma_front_line("domain"@, p.domain@, e);
    lemma_front_line("source_count"@, decimal(p.source_count as nat), e);
    lemma_front_line("confidence"@, p.confidence@, e);
    lemma_front_line("status"@, wiki_status_name(p.status), e);
    lemma_status_name(p.status);
    lemma_u32_parsed_decimal(p.source_count);
    let ls = front_block_lines(p);
    assert(split_once(ls[0], ':') is None);
    let g0 = front_start();
    let g1 = Front { id: Some(p.id), ..g0 };
    let g2 = Front { title: Some(p.title@), ..g1 };
    let g3 = Front { domain: Some(p.domain@), ..g2 };
    let g5 = Front { source_count: p.source_count, ..g3 };
    let g6 = Front { confidence: p.confidence@, ..g5 };
    let g7 = Front { status: p.status, ..g6 };
    assert(front_after(ls, 0) == Ok::<Front, Seq<char>>(g0));
    assert(front_after(ls, 1) == Ok::<Front, Seq<char>>(g0));
    assert(front_after(ls, 2) == Ok::<Front, Seq<char>>(g1));
    assert(front_after(ls, 3) == Ok::<Front, Seq<char>>(g2));
    assert(front_after(ls, 4) == Ok::<Front, Seq<char>>(g3));
    assert(front_after(ls, 5) == Ok::<Front, Seq<char>>(g3));
    assert(front_after(ls, 6) == Ok::<Front, Seq<char>>(g5));
    assert(front_after(ls, 7) == Ok::<Front, Seq<char>>(g6));
    assert("status"@[0] != "domain"@[0]);
    assert(front_after(ls, 8) == Ok::<Front, Seq<char>>(g7));
}

/// Writing a page and reading the file back gives the same page, when its
/// title, domain and confidence are single trimmed lines without `---` and
/// its body begins with no white space.
pub proof fn law_page_round_trip(p: WikiPage)
    requires
        is_front_value(p.title@),
        is_front_value(p.domain@),
        is_front_value(p.confidence@),
        trim_start(p.body@) == p.body@,
    ensures
        page_of(page_text(p)) == Ok::<PageView, Seq<char>>(p@),
{
    lemma_front_block(p);
    lemma_page_parts_of_text(p);
    lemma_front_read(p);
    reveal_strlit("\n");
    let b = p.body@;
    let tail = "\n"@ + b;
    assert(tail =~= seq!['\n'] + b);
    lemma_ws_run_end_cons('\n', b, 0);
    lemma_ws_run_end_bounds(b, 0);
    assert(ws_run_end(b, 0) == 0);
    assert(trim_start(tail) =~= b);
}

/// `u32_scan` reads a digit string that fits.
proof fn lemma_u32_scan_digits(s: Seq<char>, i: int)
    requires
        all_digits(s),
        digits_value(s) <= u32::MAX,
        0 <= i <= s.len(),
    ensures
        u32_scan(s, i, digits_value(s.take(i))) == Ok::<u32, Seq<char>>(digits_value(s) as u32),
    decreases s.len() - i,
{
    if i < s.len() {
        assert(s.take(i + 1).drop_last() =~= s.take(i));
        assert(is_digit(s[i]));
        lemma_digits_value_grows(s, i + 1, s.len() as int);
        assert(s.take(s.len() as int) =~= s);
        lemma_u32_scan_digits(s, i + 1);
    } else {
        assert(s.take(i) =~= s);
    }
}

/// `str::parse::<u32>` reads back the decimal text of a `u32`.
proof fn lemma_u32_parsed_decimal(n: u32)
    ensures
        u32_parsed(decimal(n as nat)) == Ok::<u32, Seq<char>>(n),
{
    let s = decimal(n as nat);
    lemma_decimal_digits(n as nat);
    assert(is_digit(s[0]));
    assert(s.take(0) =~= Seq::<char>::empty());
    lemma_u32_scan_digits(s, 0);
}

/// A new active page from one source, with full confidence and a fresh
/// random id.
pub fn new_page(title: &str, domain: &str, body: &str) -> (p: WikiPage)
    ensures
        p.title@ == title@,
        p.domain@ == domain@,
        p.body@ == body@,
        p.source_count == 1,
        p.confidence@ == "1"@,
        p.status == WikiStatus::Active,
{
    WikiPage {
        id: crate::types::new_id(),
        title: owned(title),
        domain: owned(domain),
        source_count: 1,
        confidence: owned("1"),
        status: WikiStatus::Active,
        body: owned(body),
    }
}

/// The file name of a page: its id and `.md`.
pub fn page_file_name(id: u128) -> (s: String)
    ensures
        s@ == uuid_text_of(id) + ".md"@,
{
    let mut s = uuid_text(id);
    s.append(".md");
    s
}

} // verus!
