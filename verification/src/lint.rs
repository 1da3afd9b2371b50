//! Wiki lint: pages that cannot be read, titles used by more than one page,
//! and `[[links]]` to titles that no page has.

use vstd::prelude::*;
use crate::text::{owned, str_eq};
use crate::wiki::{parse_page, wikilinks, wikilinks_of};

verus! {

/// A page file as the lint reads it: its path, its text, and its title or
/// the text of what stopped it from being read.
pub struct WikiEntry {
    pub path: String,
    pub raw: String,
    pub page: Result<String, String>,
}

/// A wiki entry as plain values.
pub struct EntryView {
    pub path: Seq<char>,
    pub raw: Seq<char>,
    pub page: Result<Seq<char>, Seq<char>>,
}

impl View for WikiEntry {
    type V = EntryView;

    open spec fn view(&self) -> EntryView {
        EntryView {
            path: self.path@,
            raw: self.raw@,
            page: match self.page {
                Ok(t) => Ok(t@),
                Err(e) => Err(e@),
            },
        }
    }
}

/// A lint finding: its kind, the page file it is about, and a message.
pub struct WikiLintIssue {
    pub kind: String,
    pub path: String,
    pub message: String,
}

/// A lint finding as plain values.
pub struct IssueView {
    pub kind: Seq<char>,
    pub path: Seq<char>,
    pub message: Seq<char>,
}

impl View for WikiLintIssue {
    type V = IssueView;

    open spec fn view(&self) -> IssueView {
        IssueView { kind: self.kind@, path: self.path@, message: self.message@ }
    }
}

/// The entries as plain values.
pub open spec fn entry_views(es: Seq<WikiEntry>) -> Seq<EntryView> {
    es.map_values(|e: WikiEntry| e@)
}

/// The findings as plain values.
pub open spec fn issue_views(is: Seq<WikiLintIssue>) -> Seq<IssueView> {
    is.map_values(|i: WikiLintIssue| i@)
}

/// Reads a page file for the lint: its title, or the text of the error
/// that reading it gives.
pub fn read_entry(path: String, raw: String) -> (e: WikiEntry)
    ensures
        e@.path == path@,
        e@.raw == raw@,
        e@.page == match crate::wiki::page_of(raw@) {
            Ok(p) => Ok::<Seq<char>, Seq<char>>(p.title),
            Err(m) => Err(m),
        },
{
    let page = match parse_page(raw.as_str()) {
        Ok(p) => Ok(p.title),
        Err(m) => Err(m),
    };
    WikiEntry { path, raw, page }
}

/// A page that cannot be read.
pub open spec fn frontmatter_issue(path: Seq<char>, message: Seq<char>) -> IssueView {
    IssueView { kind: "missing_frontmatter"@, path, message }
}

/// One page of a title that several pages share.
pub open spec fn duplicate_issue(path: Seq<char>, title: Seq<char>) -> IssueView {
    IssueView { kind: "duplicate_title"@, path, message: "duplicate wiki title: "@ + title }
}

/// A link to a title that no page has.
pub open spec fn broken_link_issue(path: Seq<char>, link: Seq<char>) -> IssueView {
    IssueView { kind: "broken_wikilink"@, path, message: "missing page for [["@ + link + "]]"@ }
}

/// A finding for each page that cannot be read, in order.
pub open spec fn frontmatter_issues(es: Seq<EntryView>) -> Seq<IssueView>
    decreases es.len(),
{
    if es.len() == 0 {
        seq![]
    } else {
        frontmatter_issues(es.drop_last()) + match es.last().page {
            Err(m) => seq![frontmatter_issue(es.last().path, m)],
            Ok(_) => seq![],
        }
    }
}

/// The titles of the pages that can be read, in order.
pub open spec fn titles_read(es: Seq<EntryView>) -> Seq<Seq<char>>
    decreases es.len(),
{
    if es.len() == 0 {
        seq![]
    } else {
        titles_read(es.drop_last()) + match es.last().page {
            Ok(t) => seq![t],
            Err(_) => seq![],
        }
    }
}

/// A duplicate-title finding for each page titled `t`, in order.
pub open spec fn title_issues(es: Seq<EntryView>, t: Seq<char>) -> Seq<IssueView>
    decreases es.len(),
{
    if es.len() == 0 {
        seq![]
    } else {
        title_issues(es.drop_last(), t) + if es.last().page == Ok::<Seq<char>, Seq<char>>(t) {
            seq![duplicate_issue(es.last().path, t)]
        } else {
            seq![]
        }
    }
}

/// Whether no page before the `i`-th is titled `t`.
pub open spec fn first_titled(es: Seq<EntryView>, i: int, t: Seq<char>) -> bool {
    forall|j: int| 0 <= j < i ==> (#[trigger] es[j]).page != Ok::<Seq<char>, Seq<char>>(t)
}

/// The duplicate-title findings of the first `n` pages: for each title that
/// more than one page has, at its first page, one finding per page with
/// that title.
pub open spec fn duplicates_upto(es: Seq<EntryView>, n: nat) -> Seq<IssueView>
    decreases n,
{
    if n == 0 {
        seq![]
    } else {
        duplicates_upto(es, (n - 1) as nat) + match es[n - 1].page {
            Ok(t) => if first_titled(es, n - 1, t) && title_issues(es, t).len() > 1 {
                title_issues(es, t)
            } else {
                seq![]
            },
            Err(_) => seq![],
        }
    }
}

/// The broken-link findings of one page: one for each link, in order, to a
/// title that is not among `titles`.
pub open spec fn entry_link_issues(path: Seq<char>, links: Seq<Seq<char>>, titles: Seq<Seq<char>>) -> Seq<IssueView>
    decreases links.len(),
{
    if links.len() == 0 {
        seq![]
    } else {
        entry_link_issues(path, links.drop_last(), titles) + if titles.contains(links.last()) {
            seq![]
        } else {
            seq![broken_link_issue(path, links.last())]
        }
    }
}

/// The broken-link findings of all pages, readable or not, in order.
pub open spec fn link_issues(es: Seq<EntryView>, titles: Seq<Seq<char>>) -> Seq<IssueView>
    decreases es.len(),
{
    if es.len() == 0 {
        seq![]
    } else {
        link_issues(es.drop_last(), titles) + entry_link_issues(
            es.last().path,
            wikilinks_of(es.last().raw),
            titles,
        )
    }
}

/// All findings: unreadable pages, then shared titles, then broken links.
pub open spec fn lint_of(es: Seq<EntryView>) -> Seq<IssueView> {
    frontmatter_issues(es) + duplicates_upto(es, es.len()) + link_issues(es, titles_read(es))
}

fn issue(kind: &str, path: &String, message: String) -> (i: WikiLintIssue)
    ensures
        i@ == (IssueView { kind: kind@, path: path@, message: message@ }),
{
    WikiLintIssue { kind: owned(kind), path: path.clone(), message }
}

/// The titles that `es` holds, and the findings of its unreadable pages.
fn read_titles(es: &Vec<WikiEntry>, out: &mut Vec<WikiLintIssue>) -> (titles: Vec<String>)
    ensures
        titles@.map_values(|t: String| t@) == titles_read(entry_views(es@)),
        issue_views(final(out)@) == issue_views(old(out)@) + frontmatter_issues(entry_views(es@)),
{
    let ghost ev = entry_views(es@);
    let ghost start = issue_views(out@);
    let mut titles: Vec<String> = Vec::new();
    let mut i: usize = 0;
    while i < es.len()
        invariant
            i <= es.len(),
            ev == entry_views(es@),
            titles@.map_values(|t: String| t@) == titles_read(ev.take(i as int)),
            issue_views(out@) == start + frontmatter_issues(ev.take(i as int)),
        decreases es.len() - i,
    {
        assert(ev.take(i + 1).drop_last() =~= ev.take(i as int));
        assert(ev.take(i + 1).last() == es@[i as int]@);
        match &es[i].page {
            Ok(t) => {
                titles.push(t.clone());
                assert(titles@.map_values(|t: String| t@) =~= titles_read(ev.take(i + 1)));
                assert(issue_views(out@) =~= start + frontmatter_issues(ev.take(i + 1)));
            },
            Err(m) => {
                let ghost before = issue_views(out@);
                let iss = issue("missing_frontmatter", &es[i].path, m.clone());
                out.push(iss);
                assert(issue_views(out@) =~= before.push(frontmatter_issue(es@[i as int].path@, m@)));
                assert(titles@.map_values(|t: String| t@) =~= titles_read(ev.take(i + 1)));
                assert(issue_views(out@) =~= start + frontmatter_issues(ev.take(i + 1)));
            },
        }
        i = i + 1;
    }
    assert(ev.take(i as int) =~= ev);
    titles
}

/// Whether some page before the `i`-th is titled `t`.
fn titled_before(es: &Vec<WikiEntry>, i: usize, t: &String) -> (b: bool)
    requires
        i <= es.len(),
    ensures
        b == !first_titled(entry_views(es@), i as int, t@),
{
    let ghost ev = entry_views(es@);
    let mut j: usize = 0;
    while j < i
        invariant
            j <= i <= es.len(),
            ev == entry_views(es@),
            first_titled(ev, j as int, t@),
        decreases i - j,
    {
        assert(ev[j as int] == es@[j as int]@);
        match &es[j].page {
            Ok(u) => {
                if str_eq(u.as_str(), t.as_str()) {
                    return true;
                }
            },
            Err(_) => {},
        }
        j = j + 1;
    }
    false
}

/// The duplicate-title findings for the pages titled `t`.
fn push_title_issues(es: &Vec<WikiEntry>, t: &String, out: &mut Vec<WikiLintIssue>)
    ensures
        issue_views(final(out)@) == issue_views(old(out)@) + title_issues(entry_views(es@), t@),
{
    let ghost ev = entry_views(es@);
    let ghost start = issue_views(out@);
    let mut i: usize = 0;
    while i < es.len()
        invariant
            i <= es.len(),
            ev == entry_views(es@),
            issue_views(out@) == start + title_issues(ev.take(i as int), t@),
        decreases es.len() - i,
    {
        assert(ev.take(i + 1).drop_last() =~= ev.take(i as int));
        assert(ev.take(i + 1).last() == es@[i as int]@);
        match &es[i].page {
            Ok(u) => {
                if str_eq(u.as_str(), t.as_str()) {
                    let mut m = owned("duplicate wiki title: ");
                    m.append(t.as_str());
                    let ghost before = issue_views(out@);
                    let iss = issue("duplicate_title", &es[i].path, m);
                    out.push(iss);
                    assert(issue_views(out@) =~= before.push(duplicate_issue(es@[i as int].path@, t@)));
                }
            },
            Err(_) => {},
        }
        assert(issue_views(out@) =~= start + title_issues(ev.take(i + 1), t@));
        i = i + 1;
    }
    assert(ev.take(i as int) =~= ev);
}

/// The number of pages titled `t`, stopping at two.
fn titled_count(es: &Vec<WikiEntry>, t: &String) -> (n: usize)
    ensures
        n == if title_issues(entry_views(es@), t@).len() > 1 {
            2
        } else {
            title_issues(entry_views(es@), t@).len()
        },
{
    let ghost ev = entry_views(es@);
    let mut n: usize = 0;
    let mut i: usize = 0;
    while i < es.len()
        invariant
            i <= es.len(),
            ev == entry_views(es@),
            n == if title_issues(ev.take(i as int), t@).len() > 1 {
                2
            } else {
                title_issues(ev.take(i as int), t@).len()
            },
        decreases es.len() - i,
    {
        assert(ev.take(i + 1).drop_last() =~= ev.take(i as int));
        assert(ev.take(i + 1).last() == es@[i as int]@);
        match &es[i].page {
            Ok(u) => {
                if str_eq(u.as_str(), t.as_str()) && n < 2 {
                    n = n + 1;
                }
            },
            Err(_) => {},
        }
        i = i + 1;
    }
    assert(ev.take(i as int) =~= ev);
    n
}

/// The findings for titles that more than one page has.
fn push_duplicates(es: &Vec<WikiEntry>, out: &mut Vec<WikiLintIssue>)
    ensures
        issue_views(final(out)@) == issue_views(old(out)@) + duplicates_upto(
            entry_views(es@),
            es@.len(),
        ),
{
    let ghost ev = entry_views(es@);
    let ghost start = issue_views(out@);
    let mut i: usize = 0;
    while i < es.len()
        invariant
            i <= es.len(),
            ev == entry_views(es@),
            issue_views(out@) == start + duplicates_upto(ev, i as nat),
        decreases es.len() - i,
    {
        assert(ev[i as int] == es@[i as int]@);
        let ghost before = issue_views(out@);
        match &es[i].page {
            Ok(t) => {
                if !titled_before(es, i, t) && titled_count(es, t) > 1 {
                    push_title_issues(es, t, out);
                }
            },
            Err(_) => {},
        }
        assert(issue_views(out@) =~= start + duplicates_upto(ev, (i + 1) as nat));
        i = i + 1;
    }
}

/// Whether `titles` holds `t`.
fn has_title(titles: &Vec<String>, t: &String) -> (b: bool)
    ensures
        b == titles@.map_values(|s: String| s@).contains(t@),
{
    let ghost tv = titles@.map_values(|s: String| s@);
    let mut i: usize = 0;
    while i < titles.len()
        invariant
            i <= titles.len(),
            tv == titles@.map_values(|s: String| s@),
            forall|j: int| 0 <= j < i ==> tv[j] != t@,
        decreases titles.len() - i,
    {
        if str_eq(titles[i].as_str(), t.as_str()) {
            assert(tv[i as int] == t@);
            return true;
        }
        i = i + 1;
    }
    false
}

/// The broken-link findings of one page.
fn push_link_issues(path: &String, raw: &String, titles: &Vec<String>, out: &mut Vec<WikiLintIssue>)
    ensures
        issue_views(final(out)@) == issue_views(old(out)@) + entry_link_issues(
            path@,
            wikilinks_of(raw@),
            titles@.map_values(|s: String| s@),
        ),
{
    let ghost start = issue_views(out@);
    let ghost tv = titles@.map_values(|s: String| s@);
    let links = wikilinks(raw.as_str());
    let ghost lv = links@.map_values(|s: String| s@);
    let mut i: usize = 0;
    while i < links.len()
        invariant
            i <= links.len(),
            lv == links@.map_values(|s: String| s@),
            lv == wikilinks_of(raw@),
            tv == titles@.map_values(|s: String| s@),
            issue_views(out@) == start + entry_link_issues(path@, lv.take(i as int), tv),
        decreases links.len() - i,
    {
        assert(lv.take(i + 1).drop_last() =~= lv.take(i as int));
        assert(lv.take(i + 1).last() == links@[i as int]@);
        if !has_title(titles, &links[i]) {
            let mut m = owned("missing page for [[");
            m.append(links[i].as_str());
            m.append("]]");
            let ghost before = issue_views(out@);
            let iss = issue("broken_wikilink", path, m);
            out.push(iss);
            assert(issue_views(out@) =~= before.push(broken_link_issue(path@, links@[i as int]@)));
        }
        assert(issue_views(out@) =~= start + entry_link_issues(path@, lv.take(i + 1), tv));
        i = i + 1;
    }
    assert(lv.take(i as int) =~= lv);
}

/// The lint findings for some page files, in the order `lint_of` gives.
pub fn lint_issues(es: &Vec<WikiEntry>) -> (r: Vec<WikiLintIssue>)
    ensures
        issue_views(r@) == lint_of(entry_views(es@)),
{
    let ghost ev = entry_views(es@);
    let mut out: Vec<WikiLintIssue> = Vec::new();
    let titles = read_titles(es, &mut out);
    push_duplicates(es, &mut out);
    let ghost tv = titles@.map_values(|s: String| s@);
    let ghost mid = issue_views(out@);
    let mut i: usize = 0;
    while i < es.len()
        invariant
            i <= es.len(),
            ev == entry_views(es@),
            tv == titles@.map_values(|s: String| s@),
            tv == titles_read(ev),
            issue_views(out@) == mid + link_issues(ev.take(i as int), tv),
        decreases es.len() - i,
    {
        assert(ev.take(i + 1).drop_last() =~= ev.take(i as int));
        assert(ev.take(i + 1).last() == es@[i as int]@);
        push_link_issues(&es[i].path, &es[i].raw, &titles, &mut out);
        assert(issue_views(out@) =~= mid + link_issues(ev.take(i + 1), tv));
        i = i + 1;
    }
    assert(ev.take(i as int) =~= ev);
    assert(issue_views(out@) =~= lint_of(ev));
    out
}


proof fn lemma_frontmatter_issues(es: Seq<EntryView>)
    ensures
        forall|i: int|
            0 <= i < es.len() && (#[trigger] es[i]).page is Err ==> frontmatter_issues(es).contains(
                frontmatter_issue(es[i].path, es[i].page->Err_0),
            ),
        forall|x: IssueView|
            #[trigger] frontmatter_issues(es).contains(x) ==> exists|i: int|
                0 <= i < es.len() && (#[trigger] es[i]).page is Err && x == frontmatter_issue(
                    es[i].path,
                    es[i].page->Err_0,
                ),
    decreases es.len(),
{
    if es.len() > 0 {
        let d = es.drop_last();
        lemma_frontmatter_issues(d);
        let f = frontmatter_issues(d);
        let all = frontmatter_issues(es);
        assert forall|i: int|
            0 <= i < es.len() && (#[trigger] es[i]).page is Err implies all.contains(
                frontmatter_issue(es[i].path, es[i].page->Err_0),
            ) by {
            if i < d.len() {
                assert(d[i] == es[i]);
                let k = choose|k: int| 0 <= k < f.len() && f[k] == frontmatter_issue(d[i].path, d[i].page->Err_0);
                assert(all[k] == f[k]);
            } else {
                assert(all[f.len() as int] == frontmatter_issue(es[i].path, es[i].page->Err_0));
            }
        }
        assert forall|x: IssueView| #[trigger] all.contains(x) implies exists|i: int|
            0 <= i < es.len() && (#[trigger] es[i]).page is Err && x == frontmatter_issue(
                es[i].path,
                es[i].page->Err_0,
            ) by {
            let k = choose|k: int| 0 <= k < all.len() && all[k] == x;
            if k < f.len() {
                assert(f[k] == x);
                assert(f.contains(x));
                let i = choose|i: int|
                    0 <= i < d.len() && (#[trigger] d[i]).page is Err && x == frontmatter_issue(
                        d[i].path,
                        d[i].page->Err_0,
                    );
                assert(es[i] == d[i]);
            } else {
                assert(es[es.len() - 1] == es.last());
            }
        }
    }
}

proof fn lemma_title_issues(es: Seq<EntryView>, t: Seq<char>)
    ensures
        forall|i: int|
            0 <= i < es.len() && (#[trigger] es[i]).page == Ok::<Seq<char>, Seq<char>>(t)
                ==> title_issues(es, t).contains(duplicate_issue(es[i].path, t)),
        forall|x: IssueView|
            #[trigger] title_issues(es, t).contains(x) ==> exists|i: int|
                0 <= i < es.len() && (#[trigger] es[i]).page == Ok::<Seq<char>, Seq<char>>(t) && x
                    == duplicate_issue(es[i].path, t),
    decreases es.len(),
{
    if es.len() > 0 {
        let d = es.drop_last();
        lemma_title_issues(d, t);
        let f = title_issues(d, t);
        let all = title_issues(es, t);
        assert forall|i: int|
            0 <= i < es.len() && (#[trigger] es[i]).page == Ok::<Seq<char>, Seq<char>>(t)
                implies all.contains(duplicate_issue(es[i].path, t)) by {
            if i < d.len() {
                assert(d[i] == es[i]);
                let k = choose|k: int| 0 <= k < f.len() && f[k] == duplicate_issue(d[i].path, t);
                assert(all[k] == f[k]);
            } else {
                assert(all[f.len() as int] == duplicate_issue(es[i].path, t));
            }
        }
        assert forall|x: IssueView| #[trigger] all.contains(x) implies exists|i: int|
            0 <= i < es.len() && (#[trigger] es[i]).page == Ok::<Seq<char>, Seq<char>>(t) && x
                == duplicate_issue(es[i].path, t) by {
            let k = choose|k: int| 0 <= k < all.len() && all[k] == x;
            if k < f.len() {
                assert(f[k] == x);
                assert(f.contains(x));
                let i = choose|i: int|
                    0 <= i < d.len() && (#[trigger] d[i]).page == Ok::<Seq<char>, Seq<char>>(t)
                        && x == duplicate_issue(d[i].path, t);
                assert(es[i] == d[i]);
            } else {
                assert(es[es.len() - 1] == es.last());
            }
        }
    }
}

/// Whether some page before the `n`-th is titled `t`.
pub open spec fn titled_among(es: Seq<EntryView>, n: int, t: Seq<char>) -> bool {
    exists|j: int| 0 <= j < n && (#[trigger] es[j]).page == Ok::<Seq<char>, Seq<char>>(t)
}

proof fn lemma_duplicates_prefix(es: Seq<EntryView>, m: nat, n: nat)
    requires
        m <= n <= es.len(),
    ensures
        duplicates_upto(es, n).subrange(0, duplicates_upto(es, m).len() as int) == duplicates_upto(es, m),
        duplicates_upto(es, m).len() <= duplicates_upto(es, n).len(),
    decreases n - m,
{
    if m < n {
        lemma_duplicates_prefix(es, m, (n - 1) as nat);
        let a = duplicates_upto(es, m);
        let b = duplicates_upto(es, (n - 1) as nat);
        let c = duplicates_upto(es, n);
        assert(c.subrange(0, b.len() as int) =~= b);
        assert(c.subrange(0, a.len() as int) =~= b.subrange(0, a.len() as int));
    }
}

proof fn lemma_duplicates_cover(es: Seq<EntryView>, n: nat, t: Seq<char>)
    requires
        n <= es.len(),
        titled_among(es, n as int, t),
        title_issues(es, t).len() > 1,
    ensures
        forall|x: IssueView| #[trigger] title_issues(es, t).contains(x) ==> duplicates_upto(es, n).contains(x),
    decreases n,
{
    let m = (n - 1) as nat;
    let all = duplicates_upto(es, n);
    let prev = duplicates_upto(es, m);
    lemma_duplicates_prefix(es, m, n);
    if titled_among(es, m as int, t) {
        lemma_duplicates_cover(es, m, t);
        assert forall|x: IssueView| #[trigger] title_issues(es, t).contains(x) implies all.contains(x) by {
            assert(prev.contains(x));
            let k = choose|k: int| 0 <= k < prev.len() && prev[k] == x;
            assert(all.subrange(0, prev.len() as int)[k] == x);
        }
    } else {
        let j = choose|j: int| 0 <= j < n && (#[trigger] es[j]).page == Ok::<Seq<char>, Seq<char>>(t);
        if j < m {
            assert(titled_among(es, m as int, t));
        }
        assert(first_titled(es, m as int, t)) by {
            assert forall|i: int| 0 <= i < m implies (#[trigger] es[i]).page != Ok::<Seq<char>, Seq<char>>(t) by {
                if es[i].page == Ok::<Seq<char>, Seq<char>>(t) {
                    assert(titled_among(es, m as int, t));
                }
            }
        }
        assert(all == prev + title_issues(es, t));
        assert forall|x: IssueView| #[trigger] title_issues(es, t).contains(x) implies all.contains(x) by {
            let k = choose|k: int| 0 <= k < title_issues(es, t).len() && title_issues(es, t)[k] == x;
            assert(all[prev.len() + k] == x);
        }
    }
}

proof fn lemma_duplicates_only(es: Seq<EntryView>, n: nat)
    requires
        n <= es.len(),
    ensures
        forall|x: IssueView|
            #[trigger] duplicates_upto(es, n).contains(x) ==> exists|i: int|
                0 <= i < es.len() && (#[trigger] es[i]).page is Ok && title_issues(es, es[i].page->Ok_0).len()
                    > 1 && x == duplicate_issue(es[i].path, es[i].page->Ok_0),
    decreases n,
{
    if n > 0 {
        let m = (n - 1) as nat;
        lemma_duplicates_only(es, m);
        let all = duplicates_upto(es, n);
        let prev = duplicates_upto(es, m);
        assert forall|x: IssueView| #[trigger] all.contains(x) implies exists|i: int|
            0 <= i < es.len() && (#[trigger] es[i]).page is Ok && title_issues(es, es[i].page->Ok_0).len()
                > 1 && x == duplicate_issue(es[i].path, es[i].page->Ok_0) by {
            let k = choose|k: int| 0 <= k < all.len() && all[k] == x;
            if k < prev.len() {
                assert(prev[k] == x);
                assert(prev.contains(x));
            } else {
                let t = es[m as int].page->Ok_0;
                let ti = title_issues(es, t);
                assert(ti[k - prev.len()] == x);
                assert(ti.contains(x));
                lemma_title_issues(es, t);
                let i = choose|i: int|
                    0 <= i < es.len() && (#[trigger] es[i]).page == Ok::<Seq<char>, Seq<char>>(t) && x
                        == duplicate_issue(es[i].path, t);
                assert(es[i].page->Ok_0 == t);
            }
        }
    }
}

proof fn lemma_entry_link_issues(path: Seq<char>, links: Seq<Seq<char>>, titles: Seq<Seq<char>>)
    ensures
        forall|k: int|
            0 <= k < links.len() && !titles.contains(#[trigger] links[k]) ==> entry_link_issues(
                path,
                links,
                titles,
            ).contains(broken_link_issue(path, links[k])),
        forall|x: IssueView|
            #[trigger] entry_link_issues(path, links, titles).contains(x) ==> exists|k: int|
                0 <= k < links.len() && !titles.contains(#[trigger] links[k]) && x == broken_link_issue(
                    path,
                    links[k],
                ),
    decreases links.len(),
{
    if links.len() > 0 {
        let d = links.drop_last();
        lemma_entry_link_issues(path, d, titles);
        let f = entry_link_issues(path, d, titles);
        let all = entry_link_issues(path, links, titles);
        assert forall|k: int| 0 <= k < links.len() && !titles.contains(#[trigger] links[k]) implies all.contains(
            broken_link_issue(path, links[k]),
        ) by {
            if k < d.len() {
                assert(d[k] == links[k]);
                let j = choose|j: int| 0 <= j < f.len() && f[j] == broken_link_issue(path, d[k]);
                assert(all[j] == f[j]);
            } else {
                assert(all[f.len() as int] == broken_link_issue(path, links[k]));
            }
        }
        assert forall|x: IssueView| #[trigger] all.contains(x) implies exists|k: int|
            0 <= k < links.len() && !titles.contains(#[trigger] links[k]) && x == broken_link_issue(
                path,
                links[k],
            ) by {
            let j = choose|j: int| 0 <= j < all.len() && all[j] == x;
            if j < f.len() {
                assert(f[j] == x);
                assert(f.contains(x));
                let k = choose|k: int|
                    0 <= k < d.len() && !titles.contains(#[trigger] d[k]) && x == broken_link_issue(path, d[k]);
                assert(links[k] == d[k]);
            } else {
                assert(links[links.len() - 1] == links.last());
            }
        }
    }
}

proof fn lemma_link_issues(es: Seq<EntryView>, titles: Seq<Seq<char>>)
    ensures
        forall|i: int, k: int|
            0 <= i < es.len() && 0 <= k < wikilinks_of(es[i].raw).len() && !titles.contains(
                wikilinks_of(es[i].raw)[k],
            ) ==> #[trigger] link_issues(es, titles).contains(
                #[trigger] broken_link_issue(es[i].path, wikilinks_of(es[i].raw)[k]),
            ),
        forall|x: IssueView|
            #[trigger] link_issues(es, titles).contains(x) ==> exists|i: int, k: int|
                0 <= i < es.len() && 0 <= k < wikilinks_of(es[i].raw).len() && !titles.contains(
                    wikilinks_of(es[i].raw)[k],
                ) && x == #[trigger] broken_link_issue(es[i].path, wikilinks_of(es[i].raw)[k]),
    decreases es.len(),
{
    if es.len() > 0 {
        let d = es.drop_last();
        lemma_link_issues(d, titles);
        let f = link_issues(d, titles);
        let e = es.last();
        let g = entry_link_issues(e.path, wikilinks_of(e.raw), titles);
        lemma_entry_link_issues(e.path, wikilinks_of(e.raw), titles);
        let all = link_issues(es, titles);
        assert(all == f + g);
        assert forall|i: int, k: int|
            0 <= i < es.len() && 0 <= k < wikilinks_of(es[i].raw).len() && !titles.contains(
                wikilinks_of(es[i].raw)[k],
            ) implies #[trigger] all.contains(#[trigger] broken_link_issue(es[i].path, wikilinks_of(es[i].raw)[k])) by {
            let y = broken_link_issue(es[i].path, wikilinks_of(es[i].raw)[k]);
            if i < d.len() {
                assert(d[i] == es[i]);
                assert(f.contains(broken_link_issue(d[i].path, wikilinks_of(d[i].raw)[k])));
                let j = choose|j: int| 0 <= j < f.len() && f[j] == y;
                assert(all[j] == f[j]);
            } else {
                assert(es[i] == e);
                assert(!titles.contains(wikilinks_of(e.raw)[k]));
                assert(g.contains(y));
                let j = choose|j: int| 0 <= j < g.len() && g[j] == y;
                assert(all[f.len() + j] == g[j]);
            }
        }
        assert forall|x: IssueView| #[trigger] all.contains(x) implies exists|i: int, k: int|
            0 <= i < es.len() && 0 <= k < wikilinks_of(es[i].raw).len() && !titles.contains(
                wikilinks_of(es[i].raw)[k],
            ) && x == #[trigger] broken_link_issue(es[i].path, wikilinks_of(es[i].raw)[k]) by {
            let j = choose|j: int| 0 <= j < all.len() && all[j] == x;
            if j < f.len() {
                assert(f[j] == x);
                assert(f.contains(x));
                let (i, k) = choose|i: int, k: int|
                    0 <= i < d.len() && 0 <= k < wikilinks_of(d[i].raw).len() && !titles.contains(
                        wikilinks_of(d[i].raw)[k],
                    ) && x == #[trigger] broken_link_issue(d[i].path, wikilinks_of(d[i].raw)[k]);
                assert(es[i] == d[i]);
            } else {
                assert(g[j - f.len()] == x);
                assert(g.contains(x));
                let k = choose|k: int|
                    0 <= k < wikilinks_of(e.raw).len() && !titles.contains(#[trigger] wikilinks_of(e.raw)[k])
                        && x == broken_link_issue(e.path, wikilinks_of(e.raw)[k]);
                assert(es[es.len() - 1] == e);
            }
        }
    }
}

/// The lint finds exactly these: a `missing_frontmatter` finding for each
/// page that cannot be read; a `duplicate_title` finding for each page
/// whose title another page shares; a `broken_wikilink` finding for each
/// link, in any page, to a title that no readable page has; and nothing
/// else.
pub proof fn law_lint_findings(es: Seq<EntryView>)
    ensures
        forall|i: int|
            0 <= i < es.len() && (#[trigger] es[i]).page is Err ==> lint_of(es).contains(
                frontmatter_issue(es[i].path, es[i].page->Err_0),
            ),
        forall|i: int|
            0 <= i < es.len() && (#[trigger] es[i]).page is Ok && title_issues(es, es[i].page->Ok_0).len()
                > 1 ==> lint_of(es).contains(duplicate_issue(es[i].path, es[i].page->Ok_0)),
        forall|i: int, k: int|
            0 <= i < es.len() && 0 <= k < wikilinks_of(es[i].raw).len() && !titles_read(es).contains(
                wikilinks_of(es[i].raw)[k],
            ) ==> lint_of(es).contains(#[trigger] broken_link_issue(es[i].path, wikilinks_of(es[i].raw)[k])),
        forall|x: IssueView|
            #[trigger] lint_of(es).contains(x) ==> (exists|i: int|
                0 <= i < es.len() && (#[trigger] es[i]).page is Err && x == frontmatter_issue(
                    es[i].path,
                    es[i].page->Err_0,
                )) || (exists|i: int|
                0 <= i < es.len() && (#[trigger] es[i]).page is Ok && title_issues(es, es[i].page->Ok_0).len()
                    > 1 && x == duplicate_issue(es[i].path, es[i].page->Ok_0)) || (exists|i: int, k: int|
                0 <= i < es.len() && 0 <= k < wikilinks_of(es[i].raw).len() && !titles_read(es).contains(
                    wikilinks_of(es[i].raw)[k],
                ) && x == #[trigger] broken_link_issue(es[i].path, wikilinks_of(es[i].raw)[k])),
{
    let a = frontmatter_issues(es);
    let b = duplicates_upto(es, es.len());
    let c = link_issues(es, titles_read(es));
    let all = lint_of(es);
    assert(all == a + b + c);
    lemma_frontmatter_issues(es);
    lemma_duplicates_only(es, es.len());
    lemma_link_issues(es, titles_read(es));
    assert forall|y: IssueView| a.contains(y) implies all.contains(y) by {
        let j = choose|j: int| 0 <= j < a.len() && a[j] == y;
        assert(all[j] == y);
    }
    assert forall|y: IssueView| b.contains(y) implies all.contains(y) by {
        let j = choose|j: int| 0 <= j < b.len() && b[j] == y;
        assert(all[a.len() + j] == y);
    }
    assert forall|y: IssueView| c.contains(y) implies all.contains(y) by {
        let j = choose|j: int| 0 <= j < c.len() && c[j] == y;
        assert(all[a.len() + b.len() + j] == y);
    }
    assert forall|i: int|
        0 <= i < es.len() && (#[trigger] es[i]).page is Ok && title_issues(es, es[i].page->Ok_0).len()
            > 1 implies all.contains(duplicate_issue(es[i].path, es[i].page->Ok_0)) by {
        let t = es[i].page->Ok_0;
        assert(titled_among(es, es.len() as int, t));
        lemma_duplicates_cover(es, es.len(), t);
        lemma_title_issues(es, t);
        assert(title_issues(es, t).contains(duplicate_issue(es[i].path, t)));
        assert(b.contains(duplicate_issue(es[i].path, t)));
    }
    assert forall|x: IssueView| #[trigger] all.contains(x) implies (exists|i: int|
        0 <= i < es.len() && (#[trigger] es[i]).page is Err && x == frontmatter_issue(
            es[i].path,
            es[i].page->Err_0,
        )) || (exists|i: int|
        0 <= i < es.len() && (#[trigger] es[i]).page is Ok && title_issues(es, es[i].page->Ok_0).len()
            > 1 && x == duplicate_issue(es[i].path, es[i].page->Ok_0)) || (exists|i: int, k: int|
        0 <= i < es.len() && 0 <= k < wikilinks_of(es[i].raw).len() && !titles_read(es).contains(
            wikilinks_of(es[i].raw)[k],
        ) && x == #[trigger] broken_link_issue(es[i].path, wikilinks_of(es[i].raw)[k])) by {
        let j = choose|j: int| 0 <= j < all.len() && all[j] == x;
        if j < a.len() {
            assert(a[j] == x);
            assert(a.contains(x));
        } else if j < a.len() + b.len() {
            assert(b[j - a.len()] == x);
            assert(b.contains(x));
        } else {
            assert(c[j - a.len() - b.len()] == x);
            assert(c.contains(x));
        }
    }
}

} // verus!
