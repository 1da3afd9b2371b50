//! The wiki context handed to a query: the index, then the best matching
//! pages in three sections, cut to a budget of UTF-8 bytes.

use vstd::prelude::*;
use crate::search::{search_hits, search_pages};
use crate::text::{is_text, owned, to_chars};
use crate::types::WikiPage;
use crate::wiki::PageView;

verus! {

/// The domains of pages that record earlier runs and plans.
pub open spec fn is_run_domain(d: Seq<char>) -> bool {
    d == "command"@ || d == "commands"@ || d == "debugging"@ || d == "plan"@ || d
        == "verification"@
}

/// The section a page's domain puts it in: 0 for source facts, 1 for run
/// evidence, 2 for the rest.
pub open spec fn section_of(d: Seq<char>) -> nat {
    if d == "source"@ {
        0
    } else if is_run_domain(d) {
        1
    } else {
        2
    }
}

fn section_of_exec(d: &str) -> (r: u8)
    ensures
        r as nat == section_of(d@),
{
    let v = to_chars(d);
    if is_text(&v, "source") {
        0
    } else if is_text(&v, "command") || is_text(&v, "commands") || is_text(&v, "debugging")
        || is_text(&v, "plan") || is_text(&v, "verification") {
        1
    } else {
        2
    }
}

/// One page in a section: `### title`, the body, and a blank line.
pub open spec fn context_entry(p: PageView) -> Seq<char> {
    "### "@ + p.title + "\n"@ + p.body + "\n\n"@
}

/// The plain values of some pages.
pub open spec fn page_views(ps: Seq<WikiPage>) -> Seq<PageView> {
    ps.map_values(|p: WikiPage| p@)
}

/// The entries of the pages of one section, in order.
pub open spec fn section_entries(pages: Seq<PageView>, section: nat) -> Seq<char>
    decreases pages.len(),
{
    if pages.len() == 0 {
        seq![]
    } else {
        section_entries(pages.drop_last(), section) + if section_of(pages.last().domain)
            == section {
            context_entry(pages.last())
        } else {
            seq![]
        }
    }
}

/// Whether some page falls in a section.
pub open spec fn has_section(pages: Seq<PageView>, section: nat) -> bool {
    exists|i: int| 0 <= i < pages.len() && section_of(#[trigger] pages[i].domain) == section
}

/// A section: `## heading` and its entries, or nothing when no page falls
/// in it.
pub open spec fn context_section(heading: Seq<char>, pages: Seq<PageView>, section: nat) -> Seq<
    char,
> {
    if has_section(pages, section) {
        "## "@ + heading + "\n"@ + section_entries(pages, section)
    } else {
        seq![]
    }
}

/// The context for some pages: the index and a blank line unless the
/// index is empty, then the sections for source facts, prior run evidence
/// and the other pages.
pub open spec fn context_text(index: Seq<char>, pages: Seq<PageView>) -> Seq<char> {
    (if index.len() > 0 {
        index + "\n\n"@
    } else {
        seq![]
    }) + context_section("Source facts"@, pages, 0) + context_section(
        "Prior run evidence"@,
        pages,
        1,
    ) + context_section("Other wiki context"@, pages, 2)
}

fn push_section(out: &mut String, heading: &str, pages: &Vec<WikiPage>, section: u8)
    requires
        section <= 2,
    ensures
        final(out)@ == old(out)@ + context_section(heading@, page_views(pages@), section as nat),
{
    let ghost pv = page_views(pages@);
    let mut entries = String::new();
    let mut found = false;
    let mut i: usize = 0;
    while i < pages.len()
        invariant
            i <= pages.len(),
            pv == page_views(pages@),
            entries@ == section_entries(pv.take(i as int), section as nat),
            found == has_section(pv.take(i as int), section as nat),
        decreases pages.len() - i,
    {
        let ghost before = pv.take(i as int);
        let ghost after = pv.take(i + 1);
        assert(after.drop_last() =~= before);
        assert(after[i as int] == pages@[i as int]@);
        if section_of_exec(pages[i].domain.as_str()) == section {
            entries.append("### ");
            entries.append(pages[i].title.as_str());
            entries.append("\n");
            entries.append(pages[i].body.as_str());
            entries.append("\n\n");
            found = true;
            assert(section_of(after[i as int].domain) == section as nat);
        } else {
            proof {
                if has_section(after, section as nat) {
                    let k = choose|k: int|
                        0 <= k < i + 1 && section_of(#[trigger] after[k].domain) == section as nat;
                    assert(before[k] == after[k]);
                }
            }
        }
        proof {
            if has_section(before, section as nat) {
                let k = choose|k: int|
                    0 <= k < i && section_of(#[trigger] before[k].domain) == section as nat;
                assert(after[k] == before[k]);
            }
        }
        i = i + 1;
    }
    assert(pv.take(i as int) =~= pv);
    if found {
        out.append("## ");
        out.append(heading);
        out.append("\n");
        out.append(entries.as_str());
    }
}

/// The context for some pages, before any budget.
pub fn context_for(index: &str, pages: &Vec<WikiPage>) -> (s: String)
    ensures
        s@ == context_text(index@, page_views(pages@)),
{
    let mut s = String::new();
    if to_chars(index).len() > 0 {
        s.append(index);
        s.append("\n\n");
    }
    push_section(&mut s, "Source facts", pages, 0);
    push_section(&mut s, "Prior run evidence", pages, 1);
    push_section(&mut s, "Other wiki context", pages, 2);
    assert(s@ =~= context_text(index@, page_views(pages@)));
    s
}

/// The number of bytes UTF-8 takes for a character (`char::len_utf8`).
pub open spec fn char_width(c: char) -> nat {
    if (c as u32) < 0x80 {
        1
    } else if (c as u32) < 0x800 {
        2
    } else if (c as u32) < 0x10000 {
        3
    } else {
        4
    }
}

fn char_width_exec(c: char) -> (r: usize)
    ensures
        r as nat == char_width(c),
{
    let u = c as u32;
    if u < 0x80 {
        1
    } else if u < 0x800 {
        2
    } else if u < 0x10000 {
        3
    } else {
        4
    }
}

/// The number of UTF-8 bytes of a text (`str::len`).
pub open spec fn utf8_len(s: Seq<char>) -> nat
    decreases s.len(),
{
    if s.len() == 0 {
        0
    } else {
        utf8_len(s.drop_last()) + char_width(s.last())
    }
}

pub proof fn lemma_utf8_len_take(s: Seq<char>, k: int)
    requires
        0 <= k < s.len(),
    ensures
        utf8_len(s.take(k + 1)) == utf8_len(s.take(k)) + char_width(s[k]),
{
    assert(s.take(k + 1).drop_last() =~= s.take(k));
}

pub proof fn lemma_utf8_len_grows(s: Seq<char>, j: int, k: int)
    requires
        0 <= j <= k <= s.len(),
    ensures
        utf8_len(s.take(j)) <= utf8_len(s.take(k)),
    decreases k - j,
{
    if j < k {
        lemma_utf8_len_grows(s, j, k - 1);
        lemma_utf8_len_take(s, k - 1);
    }
}

/// The number of characters from `k` on whose UTF-8 bytes still fit in
/// `budget`, counted from the start: where a cut at `budget` bytes falls.
pub open spec fn fitting(s: Seq<char>, budget: nat, k: int) -> int
    decreases s.len() - k,
{
    if 0 <= k < s.len() && utf8_len(s.take(k + 1)) <= budget {
        fitting(s, budget, k + 1)
    } else {
        k
    }
}

/// `String::truncate(budget)` after a check of the length: the text when
/// it has at most `budget` bytes, its first characters when `budget` ends
/// between two of them, and `None` when `budget` falls inside a character,
/// where `truncate` panics.
pub open spec fn truncated(s: Seq<char>, budget: nat) -> Option<Seq<char>> {
    let k = fitting(s, budget, 0);
    if utf8_len(s) <= budget {
        Some(s)
    } else if utf8_len(s.take(k)) == budget {
        Some(s.take(k))
    } else {
        None
    }
}

/// A text cut to at most `budget` bytes, as `String::truncate` cuts it.
pub fn truncate_to(s: &str, budget: usize) -> (r: Option<String>)
    ensures
        r matches Some(t) ==> truncated(s@, budget as nat) == Some(t@),
        r is None ==> truncated(s@, budget as nat) is None,
{
    let v = to_chars(s);
    let mut used: usize = 0;
    let mut k: usize = 0;
    proof {
        assert(v@.take(0) =~= Seq::<char>::empty());
    }
    while k < v.len() && char_width_exec(v[k]) <= budget - used
        invariant
            k <= v.len(),
            used as nat == utf8_len(v@.take(k as int)),
            used <= budget,
            fitting(v@, budget as nat, 0) == fitting(v@, budget as nat, k as int),
        decreases v.len() - k,
    {
        proof {
            lemma_utf8_len_take(v@, k as int);
        }
        used = used + char_width_exec(v[k]);
        k = k + 1;
    }
    if k < v.len() {
        proof {
            lemma_utf8_len_take(v@, k as int);
            lemma_utf8_len_grows(v@, k + 1, v@.len() as int);
        }
    }
    assert(v@.take(v@.len() as int) =~= v@);
    assert(fitting(v@, budget as nat, k as int) == k);
    if k == v.len() {
        Some(owned(s))
    } else if used == budget {
        let w = crate::text::slice(&v, 0, k);
        assert(w@ =~= v@.take(k as int));
        Some(crate::text::string_of(&w))
    } else {
        None
    }
}

/// The context for a query before any budget: the index, then the five
/// pages that match best.
pub open spec fn query_context_text(index: Seq<char>, pages: Seq<WikiPage>, query: Seq<char>) -> Seq<char> {
    context_text(index, search_hits(pages, query, 5).map_values(|i: int| pages[i]@))
}

/// The wiki context for a query: the index text, then the sections for the
/// five best pages, cut to `budget` bytes; `None` where the cut would fall
/// inside a character.
pub fn query_context(index: &str, pages: &Vec<WikiPage>, query: &str, budget: usize) -> (r:
    Option<String>)
    ensures
        r matches Some(t) ==> truncated(query_context_text(index@, pages@, query@), budget as nat)
            == Some(t@),
        r is None ==> truncated(query_context_text(index@, pages@, query@), budget as nat) is None,
{
    let hits = search_pages(pages, query, 5);
    let c = context_for(index, &hits);
    assert(page_views(hits@) =~= search_hits(pages@, query@, 5).map_values(|i: int| pages@[i]@));
    truncate_to(c.as_str(), budget)
}

proof fn lemma_fitting_bounds(s: Seq<char>, budget: nat, k: int)
    requires
        0 <= k <= s.len(),
    ensures
        k <= fitting(s, budget, k) <= s.len(),
    decreases s.len() - k,
{
    if k < s.len() && utf8_len(s.take(k + 1)) <= budget {
        lemma_fitting_bounds(s, budget, k + 1);
    }
}

/// A cut text fits its budget and begins the text: it is the whole text
/// exactly when that already fits, and otherwise a prefix of exactly
/// `budget` bytes.
pub proof fn law_truncated_fits(s: Seq<char>, budget: nat)
    ensures
        truncated(s, budget) matches Some(t) ==> utf8_len(t) <= budget && t.len() <= s.len() && t
            == s.take(t.len() as int),
        truncated(s, budget) matches Some(t) ==> (t == s <==> utf8_len(s) <= budget),
{
    lemma_fitting_bounds(s, budget, 0);
    assert(s.take(s.len() as int) =~= s);
    let k = fitting(s, budget, 0);
    assert(s.take(k).take(k) =~= s.take(k));
}


/// Law: a page of domain `source` goes to the source facts (section 0); a
/// page of domain `command`, `commands`, `debugging`, `plan` or
/// `verification` goes to the prior run evidence (section 1); any other
/// page goes to the other wiki context (section 2).
pub proof fn law_domain_sections(d: Seq<char>)
    ensures
        d == "source"@ ==> section_of(d) == 0,
        d == "command"@ || d == "commands"@ || d == "debugging"@ || d == "plan"@ || d
            == "verification"@ ==> section_of(d) == 1,
        d != "source"@ && d != "command"@ && d != "commands"@ && d != "debugging"@ && d != "plan"@
            && d != "verification"@ ==> section_of(d) == 2,
{
    reveal_strlit("source");
    reveal_strlit("command");
    reveal_strlit("commands");
    reveal_strlit("debugging");
    reveal_strlit("plan");
    reveal_strlit("verification");
    assert("source"@.len() == 6);
    assert("command"@.len() == 7 && "commands"@.len() == 8 && "debugging"@.len() == 9);
    assert("plan"@.len() == 4 && "verification"@.len() == 12);
}

/// Law: with no index, the context of a single page of domain `command`,
/// `commands`, `debugging`, `plan` or `verification` is that page's entry
/// under the heading `## Prior run evidence`.
pub proof fn law_run_evidence_page_context(p: PageView)
    requires
        p.domain == "command"@ || p.domain == "commands"@ || p.domain == "debugging"@ || p.domain
            == "plan"@ || p.domain == "verification"@,
    ensures
        context_text(seq![], seq![p]) == "## Prior run evidence\n"@ + context_entry(p),
{
    law_domain_sections(p.domain);
    let ps = seq![p];
    assert(ps.drop_last() =~= Seq::<PageView>::empty());
    assert(ps.last() == p);
    assert(section_entries(Seq::<PageView>::empty(), 1) == Seq::<char>::empty());
    assert(section_entries(ps, 1) =~= context_entry(p));
    assert(ps[0].domain == p.domain);
    assert(has_section(ps, 1));
    assert(!has_section(ps, 0));
    assert(!has_section(ps, 2));
    reveal_strlit("## ");
    reveal_strlit("Prior run evidence");
    reveal_strlit("\n");
    reveal_strlit("## Prior run evidence\n");
    assert(context_text(seq![], ps) =~= "## Prior run evidence\n"@ + context_entry(p));
}

/// Law: the context for a query is built from the five best-scoring pages
/// (fewer when fewer pages score above zero), in ranking order.
pub proof fn law_query_context_five_best(index: Seq<char>, pages: Seq<WikiPage>, query: Seq<char>)
    ensures
        query_context_text(index, pages, query) == context_text(
            index,
            search_hits(pages, query, 5).map_values(|i: int| pages[i]@),
        ),
        search_hits(pages, query, 5).len() == (if crate::search::positive_count(
            crate::search::scores_of(pages, query),
            pages.len(),
        ) < 5 {
            crate::search::positive_count(crate::search::scores_of(pages, query), pages.len())
        } else {
            5
        }),
{
    crate::search::law_search_hit_count(pages, query, 5);
}

/// Law: with no index, the context of a single page of domain `source` is
/// that page's entry under `## Source facts`, and that of a page of any
/// domain that is neither a source nor run evidence is its entry under
/// `## Other wiki context`.
pub proof fn law_single_page_sections(p: PageView)
    ensures
        p.domain == "source"@ ==> context_text(seq![], seq![p]) == "## Source facts\n"@ + context_entry(p),
        p.domain != "source"@ && p.domain != "command"@ && p.domain != "commands"@ && p.domain
            != "debugging"@ && p.domain != "plan"@ && p.domain != "verification"@ ==> context_text(
            seq![],
            seq![p],
        ) == "## Other wiki context\n"@ + context_entry(p),
{
    law_domain_sections(p.domain);
    let ps = seq![p];
    assert(ps.drop_last() =~= Seq::<PageView>::empty());
    assert(ps.last() == p);
    assert(ps[0].domain == p.domain);
    reveal_strlit("## ");
    reveal_strlit("Source facts");
    reveal_strlit("Other wiki context");
    reveal_strlit("\n");
    reveal_strlit("## Source facts\n");
    reveal_strlit("## Other wiki context\n");
    assert(section_entries(Seq::<PageView>::empty(), 0) == Seq::<char>::empty());
    assert(section_entries(Seq::<PageView>::empty(), 2) == Seq::<char>::empty());
    if p.domain == "source"@ {
        assert(section_entries(ps, 0) =~= context_entry(p));
        assert(has_section(ps, 0));
        assert(!has_section(ps, 1));
        assert(!has_section(ps, 2));
        assert(context_text(seq![], ps) =~= "## Source facts\n"@ + context_entry(p));
    } else if section_of(p.domain) == 2 {
        assert(section_entries(ps, 2) =~= context_entry(p));
        assert(has_section(ps, 2));
        assert(!has_section(ps, 1));
        assert(!has_section(ps, 0));
        assert(context_text(seq![], ps) =~= "## Other wiki context\n"@ + context_entry(p));
    }
}
} // verus!
