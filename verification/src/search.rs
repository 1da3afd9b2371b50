//! Ranking wiki pages against a query, and ordering them by title.
//!
//! A page's score is a whole number: bonuses for the exact phrase and for
//! run evidence, eight for each query term in the title, and one for each
//! time a term occurs in the page's lower-cased text.

use vstd::prelude::*;
use crate::policy::{lowercase, to_lowercase};
use crate::text::{
    contains, contains_chars, find_chars, find_from, is_text, lemma_find_from, to_chars, views,
    words, words_chars,
};
use crate::types::WikiPage;

verus! {

/// A count that stops at the largest `u64`.
pub open spec fn saturated(n: nat) -> u64 {
    if n > u64::MAX {
        u64::MAX
    } else {
        n as u64
    }
}

/// How many times `t` occurs in `h[i..]`, counting from the left without
/// overlaps (`str::matches(..).count()` for a nonempty `t`).
pub open spec fn count_from(h: Seq<char>, t: Seq<char>, i: int) -> nat
    decreases h.len() - i,
{
    if t.len() == 0 || i < 0 || i > h.len() {
        0
    } else {
        match find_from(h, t, i) {
            None => 0,
            Some(k) => {
                proof {
                    lemma_find_from(h, t, i);
                }
                1 + count_from(h, t, k + t.len())
            },
        }
    }
}

/// The number of non-overlapping occurrences of a nonempty `t` in `h[from..]`.
pub fn count_occurrences(h: &Vec<char>, t: &Vec<char>, from: usize) -> (r: usize)
    requires
        from <= h.len(),
    ensures
        r == count_from(h@, t@, from as int),
        r <= h.len() - from,
{
    if t.len() == 0 {
        return 0;
    }
    let mut n: usize = 0;
    let mut i: usize = from;
    while i <= h.len()
        invariant
            from <= i <= h.len(),
            t@.len() > 0,
            n <= i - from,
            count_from(h@, t@, from as int) == n + count_from(h@, t@, i as int),
        decreases h.len() + 1 - i,
    {
        proof {
            lemma_find_from(h@, t@, i as int);
        }
        match find_chars(h, t, i) {
            None => {
                return n;
            },
            Some(k) => {
                n = n + 1;
                i = k + t.len();
            },
        }
    }
    n
}

/// The domains whose pages are evidence of earlier runs.
pub open spec fn is_evidence_domain(d: Seq<char>) -> bool {
    d == "command"@ || d == "commands"@ || d == "debugging"@ || d == "verification"@
}

fn evidence_domain(d: &Vec<char>) -> (b: bool)
    ensures
        b == is_evidence_domain(d@),
{
    is_text(d, "command") || is_text(d, "commands") || is_text(d, "debugging") || is_text(
        d,
        "verification",
    )
}

/// The score of one query term: eight when the title holds it, and one for
/// each time the page's text holds it.
pub open spec fn term_score(title: Seq<char>, hay: Seq<char>, t: Seq<char>) -> nat {
    (if contains(title, t) {
        8nat
    } else {
        0nat
    }) + count_from(hay, t, 0)
}

/// The scores of the first terms, added up.
pub open spec fn terms_score(title: Seq<char>, hay: Seq<char>, ts: Seq<Seq<char>>) -> nat
    decreases ts.len(),
{
    if ts.len() == 0 {
        0
    } else {
        terms_score(title, hay, ts.drop_last()) + term_score(title, hay, ts.last())
    }
}

/// Whether the body holds one of the terms.
pub open spec fn some_term_in(body: Seq<char>, ts: Seq<Seq<char>>) -> bool {
    exists|k: int| 0 <= k < ts.len() && contains(body, #[trigger] ts[k])
}

/// The score of a page from lower-cased texts: its title, body, the text
/// `title domain body` and the query, with its domain as written. The
/// query's terms are its words. A query of more than one term adds 12 when
/// the title holds the whole query and 24 when the body does; a page of run
/// evidence whose body holds a term adds 30; then each term adds its score.
pub open spec fn lowered_score(
    lt: Seq<char>,
    lb: Seq<char>,
    hay: Seq<char>,
    q: Seq<char>,
    domain: Seq<char>,
) -> nat {
    let ts = words(q);
    let phrase: nat = if ts.len() > 1 {
        (if contains(lt, q) {
            12nat
        } else {
            0nat
        }) + (if contains(lb, q) {
            24nat
        } else {
            0nat
        })
    } else {
        0
    };
    let evidence: nat = if is_evidence_domain(domain) && some_term_in(lb, ts) {
        30
    } else {
        0
    };
    phrase + evidence + terms_score(lt, hay, ts)
}

/// Law: a page of run evidence (domain `command`, `commands`, `debugging`
/// or `verification`) whose lower-cased body holds a word of the query
/// scores exactly 30 more than the same texts in any other domain; with no
/// query word in the body, the domain changes nothing.
pub proof fn law_run_evidence_bonus(
    lt: Seq<char>,
    lb: Seq<char>,
    hay: Seq<char>,
    q: Seq<char>,
    d: Seq<char>,
    other: Seq<char>,
)
    requires
        d == "verification"@ || d == "debugging"@ || d == "commands"@ || d == "command"@,
        other != "command"@ && other != "commands"@ && other != "debugging"@ && other
            != "verification"@,
    ensures
        (exists|k: int| 0 <= k < words(q).len() && contains(lb, #[trigger] words(q)[k]))
            ==> lowered_score(lt, lb, hay, q, d) == lowered_score(lt, lb, hay, q, other) + 30,
        !(exists|k: int| 0 <= k < words(q).len() && contains(lb, #[trigger] words(q)[k]))
            ==> lowered_score(lt, lb, hay, q, d) == lowered_score(lt, lb, hay, q, other),
{
}

/// Law: the parts of a page's score. A query of two or more words adds 12
/// when the title holds the whole query and 24 when the body does; a page
/// of run evidence whose body holds a query word adds 30; and each query
/// word adds 8 when the title holds it plus one for each time the page's
/// text holds it.
pub proof fn law_score_parts(lt: Seq<char>, lb: Seq<char>, hay: Seq<char>, q: Seq<char>, d: Seq<char>)
    ensures
        lowered_score(lt, lb, hay, q, d) == (if words(q).len() > 1 && contains(lt, q) {
            12int
        } else {
            0int
        }) + (if words(q).len() > 1 && contains(lb, q) {
            24int
        } else {
            0int
        }) + (if (d == "verification"@ || d == "debugging"@ || d == "commands"@ || d == "command"@)
            && (exists|k: int| 0 <= k < words(q).len() && contains(lb, #[trigger] words(q)[k])) {
            30int
        } else {
            0int
        }) + terms_score(lt, hay, words(q)),
        forall|t: Seq<char>| #[trigger] term_score(lt, hay, t) == (if contains(lt, t) {
            8int
        } else {
            0int
        }) + count_from(hay, t, 0),
{
}

/// A page's score for a query: `lowered_score` of its lower-cased title,
/// body, text `title domain body` and the lower-cased query.
pub open spec fn page_score(title: Seq<char>, domain: Seq<char>, body: Seq<char>, query: Seq<char>) -> nat {
    lowered_score(
        lowercase(title),
        lowercase(body),
        lowercase(title + " "@ + domain + " "@ + body),
        lowercase(query),
        domain,
    )
}

/// The score of a page, as `page_score` states it, stopping at `u64::MAX`.
pub open spec fn score_of(p: WikiPage, query: Seq<char>) -> u64 {
    saturated(page_score(p.title@, p.domain@, p.body@, query))
}

fn lowered(s: &str) -> (v: Vec<char>)
    ensures
        v@ == lowercase(s@),
{
    let l = to_lowercase(s);
    to_chars(l.as_str())
}

fn any_term_in(body: &Vec<char>, ts: &Vec<Vec<char>>) -> (b: bool)
    ensures
        b == some_term_in(body@, views(ts@)),
{
    let mut k: usize = 0;
    while k < ts.len()
        invariant
            k <= ts.len(),
            forall|j: int| 0 <= j < k ==> !contains(body@, #[trigger] views(ts@)[j]),
        decreases ts.len() - k,
    {
        assert(views(ts@)[k as int] == ts@[k as int]@);
        if contains_chars(body, &ts[k]) {
            return true;
        }
        k = k + 1;
    }
    false
}

/// The score of a page for a query, from the lower-cased texts.
pub fn score_lowered(title: &Vec<char>, body: &Vec<char>, hay: &Vec<char>, q: &Vec<char>, domain: &Vec<char>) -> (r: u64)
    ensures
        r == saturated(lowered_score(title@, body@, hay@, q@, domain@)),
{
    let terms = words_chars(q);
    let ghost ts = words(q@);
    let mut phrase: u64 = 0;
    if terms.len() > 1 {
        if contains_chars(title, q) {
            phrase = 12;
        }
        if contains_chars(body, q) {
            phrase = phrase + 24;
        }
    }
    let evidence: u64 = if evidence_domain(domain) && any_term_in(body, &terms) {
        30
    } else {
        0
    };
    let mut total: u64 = phrase + evidence;
    let ghost base: nat = (phrase + evidence) as nat;
    let mut k: usize = 0;
    while k < terms.len()
        invariant
            k <= terms.len(),
            views(terms@) == ts,
            total == saturated(base + terms_score(title@, hay@, ts.take(k as int))),
        decreases terms.len() - k,
    {
        let t = &terms[k];
        let mut s: u64 = 0;
        if contains_chars(title, t) {
            s = 8;
        }
        let c = count_occurrences(hay, t, 0);
        s = s.saturating_add(c as u64);
        total = total.saturating_add(s);
        assert(ts.take(k + 1).drop_last() =~= ts.take(k as int));
        assert(ts[k as int] == t@);
        k = k + 1;
    }
    assert(ts.take(k as int) =~= ts);
    total
}

/// The score of a page for a query.
pub fn score_page(page: &WikiPage, query: &str) -> (r: u64)
    ensures
        r == score_of(*page, query@),
{
    let title = lowered(page.title.as_str());
    let body = lowered(page.body.as_str());
    let mut joined = page.title.clone();
    joined.append(" ");
    joined.append(page.domain.as_str());
    joined.append(" ");
    joined.append(page.body.as_str());
    assert(joined@ =~= page.title@ + " "@ + page.domain@ + " "@ + page.body@);
    let hay = lowered(joined.as_str());
    let q = lowered(query);
    let domain = to_chars(page.domain.as_str());
    score_lowered(&title, &body, &hay, &q, &domain)
}

/// The first place at or after `j` in `r` whose score is below `s`, or the
/// end of `r`.
pub open spec fn first_lower(r: Seq<int>, scores: Seq<u64>, s: u64, j: int) -> int
    decreases r.len() - j,
{
    if j < 0 || j >= r.len() {
        r.len() as int
    } else if scores[r[j]] < s {
        j
    } else {
        first_lower(r, scores, s, j + 1)
    }
}

pub proof fn lemma_first_lower(r: Seq<int>, scores: Seq<u64>, s: u64, j: int)
    requires
        0 <= j <= r.len(),
    ensures
        j <= first_lower(r, scores, s, j) <= r.len(),
        forall|k: int| j <= k < first_lower(r, scores, s, j) ==> scores[r[k]] >= s,
        first_lower(r, scores, s, j) < r.len() ==> scores[r[first_lower(r, scores, s, j)]] < s,
    decreases r.len() - j,
{
    if j < r.len() && scores[r[j]] >= s {
        lemma_first_lower(r, scores, s, j + 1);
    }
}

/// `i` placed in `r` before the first entry whose score is lower than its
/// own.
pub open spec fn insert_ranked(r: Seq<int>, scores: Seq<u64>, i: int) -> Seq<int> {
    r.insert(first_lower(r, scores, scores[i], 0), i)
}

/// The indices below `n` whose score is positive, in descending order of
/// score; equal scores keep the order of their indices (a stable sort).
pub open spec fn ranked(scores: Seq<u64>, n: nat) -> Seq<int>
    decreases n,
{
    if n == 0 {
        seq![]
    } else {
        let r = ranked(scores, (n - 1) as nat);
        if scores[n - 1] > 0 {
            insert_ranked(r, scores, n - 1)
        } else {
            r
        }
    }
}

/// Ranks the indices of the positive scores.
pub fn rank_scores(scores: &Vec<u64>) -> (r: Vec<usize>)
    ensures
        r@.map_values(|x: usize| x as int) == ranked(scores@, scores@.len()),
{
    let mut r: Vec<usize> = Vec::new();
    let mut i: usize = 0;
    while i < scores.len()
        invariant
            i <= scores.len(),
            r@.map_values(|x: usize| x as int) == ranked(scores@, i as nat),
            forall|k: int| 0 <= k < r.len() ==> #[trigger] r@[k] < i,
        decreases scores.len() - i,
    {
        if scores[i] > 0 {
            let ghost rv = r@.map_values(|x: usize| x as int);
            let s = scores[i];
            let mut p: usize = 0;
            while p < r.len() && scores[r[p]] >= s
                invariant
                    p <= r.len(),
                    rv == r@.map_values(|x: usize| x as int),
                    forall|k: int| 0 <= k < r.len() ==> 0 <= #[trigger] r@[k] < scores.len(),
                    first_lower(rv, scores@, s, 0) == first_lower(rv, scores@, s, p as int),
                decreases r.len() - p,
            {
                p = p + 1;
            }
            assert(first_lower(rv, scores@, s, p as int) == p);
            let ghost old_r = r@;
            r.insert(p, i);
            assert(r@.map_values(|x: usize| x as int) =~= rv.insert(p as int, i as int));
            assert forall|k: int| 0 <= k < r.len() implies #[trigger] r@[k] < i + 1 by {
                if k < p {
                    assert(r@[k] == old_r[k]);
                } else if k > p {
                    assert(r@[k] == old_r[k - 1]);
                }
            }
        }
        i = i + 1;
    }
    r
}

/// Whether `a` comes before `b` in a ranking: a higher score, or an equal
/// score and an earlier index.
pub open spec fn ranks_before(scores: Seq<u64>, a: int, b: int) -> bool {
    scores[a] > scores[b] || (scores[a] == scores[b] && a < b)
}

/// The ranking holds exactly the indices below `n` whose score is
/// positive, and each comes before every later one: by higher score, or at
/// an equal score by lower index. So each index occurs once and search is a
/// stable sort by descending score.
pub proof fn law_ranked_order(scores: Seq<u64>, n: nat)
    requires
        n <= scores.len(),
    ensures
        forall|x: int| ranked(scores, n).contains(x) <==> 0 <= x < n && scores[x] > 0,
        forall|a: int, b: int|
            0 <= a < b < ranked(scores, n).len() ==> ranks_before(
                scores,
                #[trigger] ranked(scores, n)[a],
                #[trigger] ranked(scores, n)[b],
            ),
    decreases n,
{
    if n > 0 {
        let m = (n - 1) as nat;
        law_ranked_order(scores, m);
        let r = ranked(scores, m);
        let i = n - 1;
        if scores[i] > 0 {
            let s = scores[i];
            lemma_first_lower(r, scores, s, 0);
            let p = first_lower(r, scores, s, 0);
            let q = r.insert(p, i);
            r.insert_ensures(p, i);
            assert(q == ranked(scores, n));
            assert forall|x: int| q.contains(x) <==> 0 <= x < n && scores[x] > 0 by {
                if q.contains(x) {
                    let k = choose|k: int| 0 <= k < q.len() && q[k] == x;
                    if k < p {
                        assert(r.contains(r[k]));
                    } else if k > p {
                        assert(r.contains(r[k - 1]));
                    }
                }
                if 0 <= x < n && scores[x] > 0 {
                    if x == i {
                        assert(q[p] == x);
                    } else {
                        assert(r.contains(x));
                        let k = choose|k: int| 0 <= k < r.len() && r[k] == x;
                        if k < p {
                            assert(q[k] == x);
                        } else {
                            assert(q[k + 1] == x);
                        }
                    }
                }
            }
            assert forall|a: int, b: int| 0 <= a < b < q.len() implies ranks_before(
                scores,
                #[trigger] q[a],
                #[trigger] q[b],
            ) by {
                assert(forall|k: int| 0 <= k < r.len() ==> r.contains(#[trigger] r[k]));
                if a < p && b < p {
                    assert(q[a] == r[a] && q[b] == r[b]);
                } else if a < p && b == p {
                    assert(q[a] == r[a]);
                    assert(r.contains(r[a]));
                } else if a < p {
                    assert(q[a] == r[a] && q[b] == r[b - 1]);
                    assert(ranks_before(scores, r[a], r[b - 1]));
                } else if a == p {
                    assert(q[b] == r[b - 1]);
                    if p < b - 1 {
                        assert(ranks_before(scores, r[p], r[b - 1]));
                    }
                } else {
                    assert(q[a] == r[a - 1] && q[b] == r[b - 1]);
                    assert(ranks_before(scores, r[a - 1], r[b - 1]));
                }
            }
        }
    }
}

/// The scores of pages for a query.
pub open spec fn scores_of(pages: Seq<WikiPage>, query: Seq<char>) -> Seq<u64> {
    pages.map_values(|p: WikiPage| score_of(p, query))
}

/// The indices of what a search returns: the ranking cut to `limit`.
pub open spec fn search_hits(pages: Seq<WikiPage>, query: Seq<char>, limit: nat) -> Seq<int> {
    let r = ranked(scores_of(pages, query), pages.len());
    if limit < r.len() {
        r.take(limit as int)
    } else {
        r
    }
}

/// How many of the first `n` scores are above zero.
pub open spec fn positive_count(scores: Seq<u64>, n: nat) -> nat
    decreases n,
{
    if n == 0 {
        0
    } else {
        positive_count(scores, (n - 1) as nat) + if scores[n - 1] > 0 {
            1nat
        } else {
            0nat
        }
    }
}

/// The ranking holds one index per positive score.
pub proof fn lemma_ranked_len(scores: Seq<u64>, n: nat)
    requires
        n <= scores.len(),
    ensures
        ranked(scores, n).len() == positive_count(scores, n),
    decreases n,
{
    if n > 0 {
        let m = (n - 1) as nat;
        lemma_ranked_len(scores, m);
        if scores[n - 1] > 0 {
            let r = ranked(scores, m);
            lemma_first_lower(r, scores, scores[n - 1], 0);
        }
    }
}

/// A search returns the smaller of `limit` and the number of pages that
/// score above zero.
pub proof fn law_search_hit_count(pages: Seq<WikiPage>, query: Seq<char>, limit: nat)
    ensures
        search_hits(pages, query, limit).len() == (if limit < positive_count(scores_of(pages, query), pages.len()) {
            limit
        } else {
            positive_count(scores_of(pages, query), pages.len())
        }),
{
    lemma_ranked_len(scores_of(pages, query), pages.len());
}

/// A search returns at most `limit` pages, fewer only when fewer pages
/// score above zero; each hit scores above zero, the hits come in ranking
/// order (higher score first, equal scores in page order, none twice), and
/// a page that scores above zero but was left out ranks after every hit.
pub proof fn law_search_hits(pages: Seq<WikiPage>, query: Seq<char>, limit: nat)
    ensures
        search_hits(pages, query, limit).len() == (if limit < ranked(scores_of(pages, query), pages.len()).len() {
            limit as int
        } else {
            ranked(scores_of(pages, query), pages.len()).len() as int
        }),
        forall|k: int|
            0 <= k < search_hits(pages, query, limit).len() ==> 0 <= #[trigger] search_hits(
                pages,
                query,
                limit,
            )[k] < pages.len() && scores_of(pages, query)[search_hits(pages, query, limit)[k]] > 0,
        forall|a: int, b: int|
            0 <= a < b < search_hits(pages, query, limit).len() ==> ranks_before(
                scores_of(pages, query),
                #[trigger] search_hits(pages, query, limit)[a],
                #[trigger] search_hits(pages, query, limit)[b],
            ),
        forall|x: int, k: int|
            0 <= x < pages.len() && scores_of(pages, query)[x] > 0 && !search_hits(
                pages,
                query,
                limit,
            ).contains(x) && 0 <= k < search_hits(pages, query, limit).len() ==> #[trigger] ranks_before(
                scores_of(pages, query),
                search_hits(pages, query, limit)[k],
                x,
            ),
{
    let sc = scores_of(pages, query);
    let r = ranked(sc, pages.len());
    let h = search_hits(pages, query, limit);
    law_ranked_order(sc, pages.len());
    assert forall|k: int| 0 <= k < h.len() implies h[k] == r[k] by {}
    assert forall|k: int| 0 <= k < h.len() implies 0 <= #[trigger] h[k] < pages.len() && sc[h[k]] > 0 by {
        assert(r.contains(r[k]));
    }
    assert forall|x: int, k: int|
        0 <= x < pages.len() && sc[x] > 0 && !h.contains(x) && 0 <= k < h.len() implies #[trigger] ranks_before(
            sc,
            h[k],
            x,
        ) by {
        assert(r.contains(x));
        let j = choose|j: int| 0 <= j < r.len() && r[j] == x;
        if j < h.len() {
            assert(h[j] == x);
        }
        assert(ranks_before(sc, r[k], r[j]));
    }
}

/// A copy of a page.
pub fn clone_page(p: &WikiPage) -> (r: WikiPage)
    ensures
        r@ == p@,
{
    WikiPage {
        id: p.id,
        title: p.title.clone(),
        domain: p.domain.clone(),
        source_count: p.source_count,
        confidence: p.confidence.clone(),
        status: p.status,
        body: p.body.clone(),
    }
}

/// The pages that match a query best: those with a positive score, highest
/// first, equal scores in their given order, at most `limit` of them.
pub fn search_pages(pages: &Vec<WikiPage>, query: &str, limit: usize) -> (r: Vec<WikiPage>)
    ensures
        r@.len() == search_hits(pages@, query@, limit as nat).len(),
        forall|k: int|
            0 <= k < r@.len() ==> (#[trigger] r@[k])@ == pages@[search_hits(
                pages@,
                query@,
                limit as nat,
            )[k]]@,
{
    let mut scores: Vec<u64> = Vec::new();
    let mut i: usize = 0;
    while i < pages.len()
        invariant
            i <= pages.len(),
            scores@ == scores_of(pages@, query@).take(i as int),
        decreases pages.len() - i,
    {
        let s = score_page(&pages[i], query);
        scores.push(s);
        assert(scores@ =~= scores_of(pages@, query@).take(i + 1));
        i = i + 1;
    }
    assert(scores@ =~= scores_of(pages@, query@));
    let ranking = rank_scores(&scores);
    let ghost rv = ranking@.map_values(|x: usize| x as int);
    proof {
        law_ranked_order(scores@, scores@.len());
        assert forall|k: int| 0 <= k < rv.len() implies 0 <= #[trigger] rv[k] < pages.len() by {
            assert(rv.contains(rv[k]));
        }
    }
    let mut out: Vec<WikiPage> = Vec::new();
    let mut k: usize = 0;
    while k < ranking.len() && k < limit
        invariant
            k <= ranking.len(),
            k <= limit,
            rv == ranking@.map_values(|x: usize| x as int),
            rv == ranked(scores_of(pages@, query@), pages@.len()),
            forall|j: int| 0 <= j < rv.len() ==> 0 <= #[trigger] rv[j] < pages.len(),
            out@.len() == k,
            forall|j: int| 0 <= j < k ==> (#[trigger] out@[j])@ == pages@[rv[j]]@,
        decreases ranking.len() - k,
    {
        assert(rv[k as int] == ranking@[k as int] as int);
        out.push(clone_page(&pages[ranking[k]]));
        k = k + 1;
    }
    let ghost hits = search_hits(pages@, query@, limit as nat);
    assert(hits.len() == k);
    assert forall|j: int| 0 <= j < k implies hits[j] == rv[j] by {}
    out
}

/// `a[i..]` sorts before `b[i..]`, character by character, a proper prefix
/// first. Code-point order is the order of the UTF-8 bytes, so this is how
/// `String` compares.
pub open spec fn text_less_from(a: Seq<char>, b: Seq<char>, i: int) -> bool
    decreases a.len() - i,
{
    if i < 0 {
        false
    } else if i >= a.len() {
        b.len() > i
    } else if i >= b.len() {
        false
    } else if a[i] != b[i] {
        a[i] < b[i]
    } else {
        text_less_from(a, b, i + 1)
    }
}

/// `a` sorts before `b`.
pub open spec fn text_less(a: Seq<char>, b: Seq<char>) -> bool {
    text_less_from(a, b, 0)
}

/// Whether `a` sorts before `b`.
pub fn text_less_chars(a: &Vec<char>, b: &Vec<char>) -> (r: bool)
    ensures
        r == text_less(a@, b@),
{
    let mut i: usize = 0;
    while i < a.len() && i < b.len() && a[i] == b[i]
        invariant
            i <= a.len(),
            i <= b.len(),
            text_less(a@, b@) == text_less_from(a@, b@, i as int),
        decreases a.len() - i,
    {
        i = i + 1;
    }
    if i >= a.len() {
        b.len() > i
    } else if i >= b.len() {
        false
    } else {
        a[i] < b[i]
    }
}

/// The first place at or after `j` in `r` whose title sorts after `t`, or
/// the end of `r`.
pub open spec fn first_after(r: Seq<int>, titles: Seq<Seq<char>>, t: Seq<char>, j: int) -> int
    decreases r.len() - j,
{
    if j < 0 || j >= r.len() {
        r.len() as int
    } else if text_less(t, titles[r[j]]) {
        j
    } else {
        first_after(r, titles, t, j + 1)
    }
}

/// The indices below `n`, ordered by title; equal titles keep the order of
/// their indices (a stable sort).
pub open spec fn by_title(titles: Seq<Seq<char>>, n: nat) -> Seq<int>
    decreases n,
{
    if n == 0 {
        seq![]
    } else {
        let r = by_title(titles, (n - 1) as nat);
        r.insert(first_after(r, titles, titles[n - 1], 0), n - 1)
    }
}

/// The titles of some pages.
pub open spec fn titles_of(pages: Seq<WikiPage>) -> Seq<Seq<char>> {
    pages.map_values(|p: WikiPage| p.title@)
}

/// Orders pages by title, keeping the given order among equal titles.
pub fn sort_pages_by_title(pages: Vec<WikiPage>) -> (r: Vec<WikiPage>)
    ensures
        r@.len() == pages@.len(),
        forall|k: int|
            0 <= k < r@.len() ==> (#[trigger] r@[k])@ == pages@[by_title(
                titles_of(pages@),
                pages@.len(),
            )[k]]@,
{
    let ghost titles = titles_of(pages@);
    let mut titles_v: Vec<Vec<char>> = Vec::new();
    let mut order: Vec<usize> = Vec::new();
    let mut i: usize = 0;
    while i < pages.len()
        invariant
            i <= pages.len(),
            titles == titles_of(pages@),
            titles.len() == pages.len(),
            views(titles_v@) == titles.take(i as int),
            titles_v@.len() == i,
            order@.map_values(|x: usize| x as int) == by_title(titles, i as nat),
            order@.len() == i,
            forall|k: int| 0 <= k < order.len() ==> #[trigger] order@[k] < i,
        decreases pages.len() - i,
    {
        let t = to_chars(pages[i].title.as_str());
        let ghost ov = order@.map_values(|x: usize| x as int);
        let mut p: usize = 0;
        while p < order.len() && !text_less_chars(&t, &titles_v[order[p]])
            invariant
                p <= order.len(),
                ov == order@.map_values(|x: usize| x as int),
                forall|k: int| 0 <= k < order.len() ==> #[trigger] order@[k] < i,
                views(titles_v@) == titles.take(i as int),
                titles_v@.len() == i,
                i < titles.len(),
                t@ == titles[i as int],
                first_after(ov, titles, t@, 0) == first_after(ov, titles, t@, p as int),
            decreases order.len() - p,
        {
            assert(views(titles_v@)[order@[p as int] as int] == titles_v@[order@[p as int] as int]@);
            p = p + 1;
        }
        if p < order.len() {
            assert(views(titles_v@)[order@[p as int] as int] == titles_v@[order@[p as int] as int]@);
        }
        assert(first_after(ov, titles, t@, p as int) == p);
        let ghost old_order = order@;
        order.insert(p, i);
        assert(order@.map_values(|x: usize| x as int) =~= ov.insert(p as int, i as int));
        assert forall|k: int| 0 <= k < order.len() implies #[trigger] order@[k] < i + 1 by {
            if k < p {
                assert(order@[k] == old_order[k]);
            } else if k > p {
                assert(order@[k] == old_order[k - 1]);
            }
        }
        titles_v.push(t);
        assert(views(titles_v@) =~= titles.take(i + 1));
        i = i + 1;
    }
    let ghost ov = order@.map_values(|x: usize| x as int);
    let mut out: Vec<WikiPage> = Vec::new();
    let mut k: usize = 0;
    while k < order.len()
        invariant
            k <= order.len(),
            order@.len() == pages@.len(),
            ov == order@.map_values(|x: usize| x as int),
            forall|m: int| 0 <= m < order.len() ==> #[trigger] order@[m] < pages.len(),
            out@.len() == k,
            forall|m: int| 0 <= m < k ==> (#[trigger] out@[m])@ == pages@[ov[m]]@,
        decreases order.len() - k,
    {
        out.push(clone_page(&pages[order[k]]));
        k = k + 1;
    }
    out
}

proof fn lemma_text_less_trans(a: Seq<char>, b: Seq<char>, c: Seq<char>, i: int)
    requires
        0 <= i,
        text_less_from(a, b, i),
        text_less_from(b, c, i),
    ensures
        text_less_from(a, c, i),
    decreases a.len() - i,
{
    if i < a.len() && i < b.len() && i < c.len() && a[i] == b[i] && b[i] == c[i] {
        lemma_text_less_trans(a, b, c, i + 1);
    }
}

proof fn lemma_text_less_total(a: Seq<char>, b: Seq<char>, i: int)
    requires
        0 <= i <= a.len(),
        i <= b.len(),
        !text_less_from(a, b, i),
        !text_less_from(b, a, i),
    ensures
        a.len() == b.len(),
        forall|k: int| i <= k < a.len() ==> a[k] == b[k],
    decreases a.len() - i,
{
    if i < a.len() && i < b.len() && a[i] == b[i] {
        lemma_text_less_total(a, b, i + 1);
    }
}

/// Whether the page at index `a` comes before the one at index `b` when
/// sorted by title: a smaller title, or the same title and an earlier
/// index.
pub open spec fn title_before(titles: Seq<Seq<char>>, a: int, b: int) -> bool {
    text_less(titles[a], titles[b]) || (titles[a] == titles[b] && a < b)
}

pub proof fn lemma_first_after(r: Seq<int>, titles: Seq<Seq<char>>, t: Seq<char>, j: int)
    requires
        0 <= j <= r.len(),
    ensures
        j <= first_after(r, titles, t, j) <= r.len(),
        forall|k: int| j <= k < first_after(r, titles, t, j) ==> !text_less(t, titles[r[k]]),
        first_after(r, titles, t, j) < r.len() ==> text_less(t, titles[r[first_after(r, titles, t, j)]]),
    decreases r.len() - j,
{
    if j < r.len() && !text_less(t, titles[r[j]]) {
        lemma_first_after(r, titles, t, j + 1);
    }
}

/// Pages sorted by title hold each index below `n` once, and each comes
/// before every later one: by a smaller title, or at an equal title by an
/// earlier index. So the sort is stable and orders titles as `String` does.
pub proof fn law_by_title_order(titles: Seq<Seq<char>>, n: nat)
    requires
        n <= titles.len(),
    ensures
        forall|x: int| by_title(titles, n).contains(x) <==> 0 <= x < n,
        by_title(titles, n).len() == n,
        forall|a: int, b: int|
            0 <= a < b < by_title(titles, n).len() ==> title_before(
                titles,
                #[trigger] by_title(titles, n)[a],
                #[trigger] by_title(titles, n)[b],
            ),
    decreases n,
{
    if n > 0 {
        let m = (n - 1) as nat;
        law_by_title_order(titles, m);
        let r = by_title(titles, m);
        let i = n - 1;
        let t = titles[i];
        lemma_first_after(r, titles, t, 0);
        let p = first_after(r, titles, t, 0);
        let q = r.insert(p, i);
        r.insert_ensures(p, i);
        assert(q == by_title(titles, n));
        assert forall|x: int| q.contains(x) <==> 0 <= x < n by {
            if q.contains(x) {
                let k = choose|k: int| 0 <= k < q.len() && q[k] == x;
                if k < p {
                    assert(r.contains(r[k]));
                } else if k > p {
                    assert(r.contains(r[k - 1]));
                }
            }
            if 0 <= x < n {
                if x == i {
                    assert(q[p] == x);
                } else {
                    assert(r.contains(x));
                    let k = choose|k: int| 0 <= k < r.len() && r[k] == x;
                    if k < p {
                        assert(q[k] == x);
                    } else {
                        assert(q[k + 1] == x);
                    }
                }
            }
        }
        assert forall|a: int, b: int| 0 <= a < b < q.len() implies title_before(
            titles,
            #[trigger] q[a],
            #[trigger] q[b],
        ) by {
            assert(forall|k: int| 0 <= k < r.len() ==> r.contains(#[trigger] r[k]));
            if a < p && b < p {
                assert(q[a] == r[a] && q[b] == r[b]);
            } else if a < p && b == p {
                assert(q[a] == r[a]);
                assert(r.contains(r[a]));
                let ta = titles[r[a]];
                if !text_less(ta, t) {
                    lemma_text_less_total(ta, t, 0);
                    assert(ta =~= t);
                }
            } else if a < p {
                assert(q[a] == r[a] && q[b] == r[b - 1]);
                assert(title_before(titles, r[a], r[b - 1]));
            } else if a == p {
                assert(q[b] == r[b - 1]);
                let tp = titles[r[p]];
                let tb = titles[r[b - 1]];
                if p < b - 1 {
                    assert(title_before(titles, r[p], r[b - 1]));
                    if text_less(tp, tb) {
                        lemma_text_less_trans(t, tp, tb, 0);
                    }
                }
            } else {
                assert(q[a] == r[a - 1] && q[b] == r[b - 1]);
                assert(title_before(titles, r[a - 1], r[b - 1]));
            }
        }
    }
}

} // verus!
