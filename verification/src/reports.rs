//! What the CLI prints for the wiki, the sources, the log and the doctor,
//! and the context it attaches for `@workspace` and `@file:` mentions.

use vstd::prelude::*;
use crate::cli::CliError;
use crate::context::{truncated, truncate_to, utf8_len};
use crate::lint::{issue_views, IssueView, WikiLintIssue};
use crate::path::{components, components_of, path_starts_with, path_starts_with_str};
use crate::search::{text_less, text_less_chars};
use crate::settings::{clone_settings, ensured, profile_index, AppSettings, SettingsView};
use crate::sources::{record_views, RecordView, WikiError};
use crate::text::{
    decimal, is_text, starts_with, lines, lines_chars, owned, str_eq, string_of, strip_prefix, strip_prefix_lit,
    to_chars, trim, trim_chars, u64_text, views, words, words_chars,
};
use crate::types::{backend_name, SourceRecord, WikiPage};

verus! {

/// Items joined by line breaks.
pub open spec fn joined_lines(items: Seq<Seq<char>>) -> Seq<char>
    decreases items.len(),
{
    if items.len() == 0 {
        seq![]
    } else if items.len() == 1 {
        items[0]
    } else {
        joined_lines(items.drop_last()) + "\n"@ + items.last()
    }
}

/// Items joined by blank lines.
pub open spec fn joined_paragraphs(items: Seq<Seq<char>>) -> Seq<char>
    decreases items.len(),
{
    if items.len() == 0 {
        seq![]
    } else if items.len() == 1 {
        items[0]
    } else {
        joined_paragraphs(items.drop_last()) + "\n\n"@ + items.last()
    }
}

/// The texts held by some strings.
pub open spec fn texts(v: Seq<String>) -> Seq<Seq<char>> {
    v.map_values(|s: String| s@)
}

fn push_joined(out: &mut String, items: &Vec<String>, sep: &str)
    requires
        sep@ == "\n"@ || sep@ == "\n\n"@,
    ensures
        sep@ == "\n"@ ==> final(out)@ == old(out)@ + joined_lines(texts(items@)),
        sep@ == "\n\n"@ ==> final(out)@ == old(out)@ + joined_paragraphs(texts(items@)),
{
    let ghost start = out@;
    let ghost tv = texts(items@);
    let mut i: usize = 0;
    while i < items.len()
        invariant
            i <= items.len(),
            tv == texts(items@),
            sep@ == "\n"@ || sep@ == "\n\n"@,
            sep@ == "\n"@ ==> out@ == start + joined_lines(tv.take(i as int)),
            sep@ == "\n\n"@ ==> out@ == start + joined_paragraphs(tv.take(i as int)),
        decreases items.len() - i,
    {
        assert(tv.take(i + 1).drop_last() =~= tv.take(i as int));
        assert(tv.take(i + 1).last() == items@[i as int]@);
        if i > 0 {
            out.append(sep);
        } else {
            assert(tv.take(i + 1) =~= seq![items@[0]@]);
            assert(tv.take(0) =~= Seq::<Seq<char>>::empty());
        }
        out.append(items[i].as_str());
        i = i + 1;
    }
    assert(tv.take(i as int) =~= tv);
}

/// The report of one ingested file.
pub open spec fn ingest_file_text(path: Seq<char>, hash: Seq<char>, skipped: bool) -> Seq<char> {
    "Ingest file\npath: "@ + path + "\nhash: "@ + hash + "\nstatus: "@ + (if skipped {
        "skipped"@
    } else {
        "ingested"@
    }) + "\n"@
}

/// The report of one ingested file: its path, hash, and whether it was
/// new or skipped as already known.
pub fn ingest_file_output(path: &str, hash: &str, skipped: bool) -> (s: String)
    ensures
        s@ == ingest_file_text(path@, hash@, skipped),
{
    let mut s = owned("Ingest file\npath: ");
    s.append(path);
    s.append("\nhash: ");
    s.append(hash);
    s.append("\nstatus: ");
    s.append(if skipped { "skipped" } else { "ingested" });
    s.append("\n");
    s
}

/// What ingesting one file of a folder came to.
#[derive(Clone, Debug, PartialEq, Eq)]
pub enum IngestOutcome {
    Ingested,
    Skipped,
    Failed(WikiError),
}

/// The counts after one more file of a folder: a new file adds to the
/// ingested, a known one to the skipped, an unsupported type to neither;
/// any other failure stops the folder with its error.
pub open spec fn tally_step(ingested: nat, skipped: nat, outcome: IngestOutcome) -> Result<(nat, nat), WikiError> {
    match outcome {
        IngestOutcome::Ingested => Ok((ingested + 1, skipped)),
        IngestOutcome::Skipped => Ok((ingested, skipped + 1)),
        IngestOutcome::Failed(WikiError::UnsupportedSourceType(_)) => Ok((ingested, skipped)),
        IngestOutcome::Failed(e) => Err(e),
    }
}

/// The counts after one more file of a folder.
pub fn tally_ingest(ingested: u64, skipped: u64, outcome: IngestOutcome) -> (r: Result<(u64, u64), WikiError>)
    requires
        ingested < u64::MAX,
        skipped < u64::MAX,
    ensures
        match tally_step(ingested as nat, skipped as nat, outcome) {
            Ok((a, b)) => r matches Ok((x, y)) && x == a && y == b,
            Err(e) => r == Err::<(u64, u64), WikiError>(e),
        },
{
    match outcome {
        IngestOutcome::Ingested => Ok((ingested + 1, skipped)),
        IngestOutcome::Skipped => Ok((ingested, skipped + 1)),
        IngestOutcome::Failed(WikiError::UnsupportedSourceType(p)) => Ok((ingested, skipped)),
        IngestOutcome::Failed(e) => Err(e),
    }
}

/// The report of an ingested folder.
pub open spec fn ingest_folder_text(folder: Seq<char>, ingested: nat, skipped: nat) -> Seq<char> {
    "Ingest folder\npath: "@ + folder + "\ningested: "@ + decimal(ingested) + "\nskipped: "@
        + decimal(skipped) + "\n"@
}

/// The report of an ingested folder: its path and how many files were
/// ingested and skipped.
pub fn ingest_folder_output(folder: &str, ingested: u64, skipped: u64) -> (s: String)
    ensures
        s@ == ingest_folder_text(folder@, ingested as nat, skipped as nat),
{
    let mut s = owned("Ingest folder\npath: ");
    s.append(folder);
    s.append("\ningested: ");
    let a = u64_text(ingested);
    s.append(a.as_str());
    s.append("\nskipped: ");
    let b = u64_text(skipped);
    s.append(b.as_str());
    s.append("\n");
    s
}

/// Checks a folder before it is ingested: it must lie in the workspace.
pub fn check_ingest_folder(workspace: &str, folder: &str) -> (r: Result<(), CliError>)
    ensures
        path_starts_with(folder@, workspace@) ==> r is Ok,
        !path_starts_with(folder@, workspace@) ==> (r matches Err(CliError::FolderOutsideWorkspace(p))
            && p@ == folder@),
{
    if path_starts_with_str(folder, workspace) {
        Ok(())
    } else {
        Err(CliError::FolderOutsideWorkspace(owned(folder)))
    }
}

/// The directories skipped when a folder is walked.
pub open spec fn skipped_dirs() -> Seq<Seq<char>> {
    seq!["target"@, ".git"@, ".worktrees"@, ".playwright-mcp"@]
}

/// Whether a folder walk enters a directory: not a hidden one and not one
/// of the skipped names.
pub open spec fn enters_dir(name: Seq<char>) -> bool {
    !(name.len() > 0 && name[0] == '.') && !skipped_dirs().contains(name)
}

/// Whether a folder walk enters a directory with this name.
pub fn should_enter_dir(name: &str) -> (b: bool)
    ensures
        b == enters_dir(name@),
{
    let v = to_chars(name);
    if v.len() > 0 && v[0] == '.' {
        return false;
    }
    proof {
        reveal_strlit("target");
        reveal_strlit(".git");
        reveal_strlit(".worktrees");
        reveal_strlit(".playwright-mcp");
    }
    let skip = is_text(&v, "target") || is_text(&v, ".git") || is_text(&v, ".worktrees") || is_text(
        &v,
        ".playwright-mcp",
    );
    let ghost ds = skipped_dirs();
    assert(skip == ds.contains(v@)) by {
        if ds.contains(v@) {
            let k = choose|k: int| 0 <= k < ds.len() && ds[k] == v@;
            assert(0 <= k < 4);
        }
        if skip {
            if v@ == "target"@ {
                assert(ds[0] == v@);
            } else if v@ == ".git"@ {
                assert(ds[1] == v@);
            } else if v@ == ".worktrees"@ {
                assert(ds[2] == v@);
            } else {
                assert(ds[3] == v@);
            }
        }
    }
    !skip
}

/// The query report: the context, or `no context` when it is blank.
pub open spec fn query_text(query: Seq<char>, context: Seq<char>) -> Seq<char> {
    if trim(context).len() == 0 {
        "Query context: "@ + query + "\nno context\n"@
    } else {
        "Query context: "@ + query + "\n"@ + context + "\n"@
    }
}

/// The query report for a context.
pub fn query_output(query: &str, context: &str) -> (s: String)
    ensures
        s@ == query_text(query@, context@),
{
    let mut s = owned("Query context: ");
    s.append(query);
    let c = to_chars(context);
    let t = trim_chars(&c);
    if t.len() == 0 {
        s.append("\nno context\n");
    } else {
        s.append("\n");
        s.append(context);
        s.append("\n");
    }
    s
}

/// The line of one lint finding.
pub open spec fn issue_line(i: IssueView) -> Seq<char> {
    "- "@ + i.kind + ": "@ + i.message + " ("@ + i.path + ")"@
}

/// The lint report.
pub open spec fn lint_text(issues: Seq<IssueView>) -> Seq<char> {
    if issues.len() == 0 {
        "Wiki lint\nno issues\n"@
    } else {
        "Wiki lint\n"@ + joined_lines(issues.map_values(|i: IssueView| issue_line(i))) + "\n"@
    }
}

/// The lint report: one line per finding, or `no issues`.
pub fn lint_wiki_output(issues: &Vec<WikiLintIssue>) -> (s: String)
    ensures
        s@ == lint_text(issue_views(issues@)),
{
    if issues.len() == 0 {
        return owned("Wiki lint\nno issues\n");
    }
    let mut ls: Vec<String> = Vec::new();
    let mut i: usize = 0;
    while i < issues.len()
        invariant
            i <= issues.len(),
            texts(ls@) == issue_views(issues@).take(i as int).map_values(|v: IssueView| issue_line(v)),
        decreases issues.len() - i,
    {
        let mut l = owned("- ");
        l.append(issues[i].kind.as_str());
        l.append(": ");
        l.append(issues[i].message.as_str());
        l.append(" (");
        l.append(issues[i].path.as_str());
        l.append(")");
        assert(l@ =~= issue_line(issues@[i as int]@));
        let ghost before = texts(ls@);
        ls.push(l);
        assert(texts(ls@) =~= before.push(issue_line(issues@[i as int]@)));
        assert(issue_views(issues@).take(i + 1).drop_last() =~= issue_views(issues@).take(i as int));
        assert(texts(ls@) =~= issue_views(issues@).take(i + 1).map_values(|v: IssueView| issue_line(v)));
        i = i + 1;
    }
    assert(issue_views(issues@).take(i as int) =~= issue_views(issues@));
    let mut s = owned("Wiki lint\n");
    push_joined(&mut s, &ls, "\n");
    s.append("\n");
    s
}

/// The last `n` lines of a text, in order.
pub open spec fn last_lines(ls: Seq<Seq<char>>, n: nat) -> Seq<Seq<char>> {
    if ls.len() <= n {
        ls
    } else {
        ls.skip(ls.len() - n)
    }
}

/// The recent-log report: the log's last twenty lines, or `none` when there
/// is no log.
pub open spec fn recent_log_text(log: Option<Seq<char>>) -> Seq<char> {
    match log {
        None => "Recent log\nnone\n"@,
        Some(raw) => "Recent log\n"@ + joined_lines(last_lines(lines(raw), 20)) + "\n"@,
    }
}

/// The recent-log report for the log's text, if there is a log.
pub fn log_recent_output(log: Option<&str>) -> (s: String)
    ensures
        s@ == recent_log_text(
            match log {
                Some(l) => Some(l@),
                None => None,
            },
        ),
{
    let raw = match log {
        None => {
            return owned("Recent log\nnone\n");
        },
        Some(l) => l,
    };
    let ls = lines_chars(&to_chars(raw));
    let start: usize = if ls.len() <= 20 {
        0
    } else {
        ls.len() - 20
    };
    let mut kept: Vec<String> = Vec::new();
    let ghost want = last_lines(lines(raw@), 20);
    let mut i: usize = start;
    assert(want =~= views(ls@).skip(start as int));
    while i < ls.len()
        invariant
            start <= i <= ls.len(),
            want == views(ls@).skip(start as int),
            texts(kept@) == want.take(i - start),
        decreases ls.len() - i,
    {
        assert(views(ls@)[i as int] == ls@[i as int]@);
        let ghost before = texts(kept@);
        kept.push(string_of(&ls[i]));
        assert(texts(kept@) =~= before.push(ls@[i as int]@));
        assert(want[i - start] == ls@[i as int]@);
        assert(texts(kept@) =~= want.take(i - start + 1));
        i = i + 1;
    }
    assert(want.take(i - start) =~= want);
    let mut s = owned("Recent log\n");
    push_joined(&mut s, &kept, "\n");
    s.append("\n");
    s
}

/// The line of one source.
pub open spec fn source_line(r: RecordView) -> Seq<char> {
    "- "@ + r.hash + " "@ + r.path
}

/// The sources report.
pub open spec fn sources_text(rs: Seq<RecordView>) -> Seq<char> {
    if rs.len() == 0 {
        "Sources\nnone\n"@
    } else {
        "Sources\n"@ + joined_lines(rs.map_values(|r: RecordView| source_line(r))) + "\n"@
    }
}

/// The sources report: one line per record, or `none`.
pub fn sources_output(records: &Vec<SourceRecord>) -> (s: String)
    ensures
        s@ == sources_text(record_views(records@)),
{
    if records.len() == 0 {
        return owned("Sources\nnone\n");
    }
    let mut ls: Vec<String> = Vec::new();
    let mut i: usize = 0;
    while i < records.len()
        invariant
            i <= records.len(),
            texts(ls@) == record_views(records@).take(i as int).map_values(|r: RecordView| source_line(r)),
        decreases records.len() - i,
    {
        let mut l = owned("- ");
        l.append(records[i].hash.as_str());
        l.append(" ");
        l.append(records[i].path.as_str());
        assert(l@ =~= source_line(records@[i as int]@));
        let ghost before = texts(ls@);
        ls.push(l);
        assert(texts(ls@) =~= before.push(source_line(records@[i as int]@)));
        assert(texts(ls@) =~= record_views(records@).take(i + 1).map_values(|r: RecordView| source_line(r)));
        i = i + 1;
    }
    assert(record_views(records@).take(i as int) =~= record_views(records@));
    let mut s = owned("Sources\n");
    push_joined(&mut s, &ls, "\n");
    s.append("\n");
    s
}

/// The list of saved pages.
pub open spec fn wiki_list_text(pages: Seq<WikiPage>) -> Seq<char> {
    if pages.len() == 0 {
        "Saved wiki pages\nnone\n"@
    } else {
        "Saved wiki pages\n"@ + joined_lines(pages.map_values(|p: WikiPage| "- "@ + p.title@)) + "\n"@
    }
}

/// The list of saved pages: one line per title, or `none`.
pub fn wiki_list_output(pages: &Vec<WikiPage>) -> (s: String)
    ensures
        s@ == wiki_list_text(pages@),
{
    if pages.len() == 0 {
        return owned("Saved wiki pages\nnone\n");
    }
    let mut ls: Vec<String> = Vec::new();
    let mut i: usize = 0;
    while i < pages.len()
        invariant
            i <= pages.len(),
            texts(ls@) == pages@.take(i as int).map_values(|p: WikiPage| "- "@ + p.title@),
        decreases pages.len() - i,
    {
        let mut l = owned("- ");
        l.append(pages[i].title.as_str());
        let ghost before = texts(ls@);
        ls.push(l);
        assert(texts(ls@) =~= before.push("- "@ + pages@[i as int].title@));
        assert(texts(ls@) =~= pages@.take(i + 1).map_values(|p: WikiPage| "- "@ + p.title@));
        i = i + 1;
    }
    assert(pages@.take(i as int) =~= pages@);
    let mut s = owned("Saved wiki pages\n");
    push_joined(&mut s, &ls, "\n");
    s.append("\n");
    s
}

/// The line of one search hit.
pub open spec fn hit_line(p: WikiPage) -> Seq<char> {
    "- ["@ + p.domain@ + "] "@ + p.title@
}

/// The search report.
pub open spec fn wiki_search_text(query: Seq<char>, pages: Seq<WikiPage>) -> Seq<char> {
    if pages.len() == 0 {
        "Wiki search: "@ + query + "\nno matches\n"@
    } else {
        "Wiki search: "@ + query + "\n"@ + joined_lines(pages.map_values(|p: WikiPage| hit_line(p)))
            + "\n"@
    }
}

/// The search report for the pages a search found: one line per page with
/// its domain and title, or `no matches`.
pub fn wiki_search_output(query: &str, pages: &Vec<WikiPage>) -> (s: String)
    ensures
        s@ == wiki_search_text(query@, pages@),
{
    let mut s = owned("Wiki search: ");
    s.append(query);
    if pages.len() == 0 {
        s.append("\nno matches\n");
        return s;
    }
    let mut ls: Vec<String> = Vec::new();
    let mut i: usize = 0;
    while i < pages.len()
        invariant
            i <= pages.len(),
            texts(ls@) == pages@.take(i as int).map_values(|p: WikiPage| hit_line(p)),
        decreases pages.len() - i,
    {
        let mut l = owned("- [");
        l.append(pages[i].domain.as_str());
        l.append("] ");
        l.append(pages[i].title.as_str());
        assert(l@ =~= hit_line(pages@[i as int]));
        let ghost before = texts(ls@);
        ls.push(l);
        assert(texts(ls@) =~= before.push(hit_line(pages@[i as int])));
        assert(texts(ls@) =~= pages@.take(i + 1).map_values(|p: WikiPage| hit_line(p)));
        i = i + 1;
    }
    assert(pages@.take(i as int) =~= pages@);
    s.append("\n");
    push_joined(&mut s, &ls, "\n");
    s.append("\n");
    s
}

/// The doctor's line about the connection test.
pub open spec fn connection_text(connection: Result<(), Seq<char>>) -> Seq<char> {
    match connection {
        Ok(()) => "Connection OK"@,
        Err(e) => "Connection failed: "@ + e,
    }
}

/// The doctor report, for settings made consistent first.
pub open spec fn doctor_text(s: SettingsView, path: Seq<char>, connection: Result<(), Seq<char>>) -> Seq<char> {
    let s0 = ensured(s);
    "CodeSmith doctor\nsettings: "@ + path + "\nprofile: "@ + s0.active_profile + "\nbackend: "@ + (
    match profile_index(s0.model_profiles, s0.active_profile) {
        Some(i) => backend_name(s0.model_profiles[i].backend_kind),
        None => "missing"@,
    }) + "\nbase_url: "@ + s0.llm_base_url + "\nmodel: "@ + s0.llm_model + "\nworkspace: "@
        + s0.default_workspace + "\ntimeout_secs: "@ + decimal(s0.command_timeout_secs as nat)
        + "\n"@ + connection_text(connection) + "\n"@
}

/// The doctor report: the consistent settings and the result of testing
/// the connection with them.
pub fn doctor_output(settings: &AppSettings, settings_path: &str, connection: &Result<(), String>) -> (out: String)
    ensures
        out@ == doctor_text(
            settings@,
            settings_path@,
            match connection {
                Ok(()) => Ok(()),
                Err(e) => Err(e@),
            },
        ),
{
    let mut s = clone_settings(settings);
    s.ensure_model_profiles();
    let found = s.active_profile_index();
    proof {
        crate::settings::lemma_profile_index_from(s@.model_profiles, s@.active_profile, 0);
    }
    let mut out = owned("CodeSmith doctor\nsettings: ");
    out.append(settings_path);
    out.append("\nprofile: ");
    out.append(s.active_profile.as_str());
    out.append("\nbackend: ");
    match found {
        Some(i) => out.append(s.model_profiles[i].backend_kind.as_str()),
        None => out.append("missing"),
    }
    out.append("\nbase_url: ");
    out.append(s.llm_base_url.as_str());
    out.append("\nmodel: ");
    out.append(s.llm_model.as_str());
    out.append("\nworkspace: ");
    out.append(s.default_workspace.as_str());
    out.append("\ntimeout_secs: ");
    let n = u64_text(s.command_timeout_secs);
    out.append(n.as_str());
    out.append("\n");
    match connection {
        Ok(()) => out.append("Connection OK"),
        Err(e) => {
            out.append("Connection failed: ");
            out.append(e.as_str());
        },
    }
    out.append("\n");
    out
}

/// Whether a trust file's text lists a workspace: some line, trimmed, is
/// the workspace's path.
pub open spec fn trust_lists(contents: Seq<char>, workspace: Seq<char>) -> bool {
    exists|i: int| 0 <= i < lines(contents).len() && trim(#[trigger] lines(contents)[i]) == workspace
}

/// Whether a trust file's text lists a workspace.
pub fn is_trusted_in(contents: &str, workspace: &str) -> (b: bool)
    ensures
        b == trust_lists(contents@, workspace@),
{
    let ls = lines_chars(&to_chars(contents));
    let w = to_chars(workspace);
    let ghost lv = lines(contents@);
    let mut i: usize = 0;
    while i < ls.len()
        invariant
            i <= ls.len(),
            views(ls@) == lv,
            lv == lines(contents@),
            w@ == workspace@,
            forall|j: int| 0 <= j < i ==> trim(#[trigger] lv[j]) != workspace@,
        decreases ls.len() - i,
    {
        assert(lv[i as int] == ls@[i as int]@);
        let t = trim_chars(&ls[i]);
        if crate::text::chars_eq(&t, &w) {
            assert(trim(lines(contents@)[i as int]) == workspace@);
            return true;
        }
        i = i + 1;
    }
    false
}

/// A mention in a prompt that asks for context.
#[derive(Clone, Debug, PartialEq, Eq)]
pub enum AtMention {
    /// `@workspace`: the workspace's path.
    Workspace,
    /// `@file:path`: a file of the workspace, by the path written.
    File(String),
}

/// A mention as plain values.
pub enum MentionView {
    Workspace,
    File(Seq<char>),
}

/// The mention a word of a prompt makes, if any.
pub open spec fn mention_of(word: Seq<char>) -> Option<MentionView> {
    if word == "@workspace"@ {
        Some(MentionView::Workspace)
    } else {
        match strip_prefix(word, "@file:"@) {
            Some(p) => Some(MentionView::File(p)),
            None => None,
        }
    }
}

/// The mentions of the first words, in order.
pub open spec fn mentions_upto(ws: Seq<Seq<char>>, n: nat) -> Seq<MentionView>
    decreases n,
{
    if n == 0 {
        seq![]
    } else {
        mentions_upto(ws, (n - 1) as nat) + match mention_of(ws[n - 1]) {
            Some(m) => seq![m],
            None => seq![],
        }
    }
}

/// The mentions of a prompt's words, in order.
pub open spec fn mentions_of(prompt: Seq<char>) -> Seq<MentionView> {
    mentions_upto(words(prompt), words(prompt).len())
}

/// A mention as plain values.
pub open spec fn mention_view(m: AtMention) -> MentionView {
    match m {
        AtMention::Workspace => MentionView::Workspace,
        AtMention::File(p) => MentionView::File(p@),
    }
}

/// The `@workspace` and `@file:` mentions of a prompt, in order.
pub fn at_mentions(prompt: &str) -> (r: Vec<AtMention>)
    ensures
        r@.map_values(|m: AtMention| mention_view(m)) == mentions_of(prompt@),
{
    let ws = words_chars(&to_chars(prompt));
    let ghost wv = words(prompt@);
    let mut r: Vec<AtMention> = Vec::new();
    let mut i: usize = 0;
    while i < ws.len()
        invariant
            i <= ws.len(),
            views(ws@) == wv,
            r@.map_values(|m: AtMention| mention_view(m)) == mentions_upto(wv, i as nat),
        decreases ws.len() - i,
    {
        assert(wv[i as int] == ws@[i as int]@);
        let ghost before = r@.map_values(|m: AtMention| mention_view(m));
        if is_text(&ws[i], "@workspace") {
            r.push(AtMention::Workspace);
            assert(r@.map_values(|m: AtMention| mention_view(m)) =~= before.push(MentionView::Workspace));
        } else {
            match strip_prefix_lit(&ws[i], "@file:") {
                Some(p) => {
                    r.push(AtMention::File(string_of(&p)));
                    assert(r@.map_values(|m: AtMention| mention_view(m)) =~= before.push(
                        MentionView::File(p@),
                    ));
                },
                None => {
                    assert(r@.map_values(|m: AtMention| mention_view(m)) =~= before);
                },
            }
        }
        i = i + 1;
    }
    r
}

/// The attachment for `@workspace`.
pub fn workspace_attachment(workspace: &str) -> (s: String)
    ensures
        s@ == "## @workspace\n"@ + workspace@,
{
    let mut s = owned("## @workspace\n");
    s.append(workspace);
    s
}

/// Checks a `@file:` mention before it is read: the path must not be blank,
/// and the file, once resolved, must lie in the workspace.
pub fn check_file_mention(raw_path: &str, workspace: &str, resolved: &str) -> (r: Result<(), CliError>)
    ensures
        trim(raw_path@).len() == 0 ==> (r matches Err(CliError::Blank(n)) && n@ == "file mention"@),
        trim(raw_path@).len() > 0 && !path_starts_with(resolved@, workspace@) ==> (r matches Err(
            CliError::FileOutsideWorkspace(p),
        ) && p@ == raw_path@),
        trim(raw_path@).len() > 0 && path_starts_with(resolved@, workspace@) ==> r is Ok,
{
    match crate::cli::ensure_non_empty("file mention", raw_path) {
        Err(e) => {
            return Err(e);
        },
        Ok(()) => {},
    }
    if path_starts_with_str(resolved, workspace) {
        Ok(())
    } else {
        Err(CliError::FileOutsideWorkspace(owned(raw_path)))
    }
}

/// The attachment text for a file: its path and contents in a text block.
pub open spec fn file_block(raw_path: Seq<char>, contents: Seq<char>) -> Seq<char> {
    "## @file:"@ + raw_path + "\n```text\n"@ + contents + "\n```"@
}

/// The attachment for a `@file:` mention: the contents, cut to 12000 bytes
/// and marked `[truncated]` when longer; `None` when the cut would fall
/// inside a character, where `String::truncate` panics.
pub open spec fn file_attachment_text(raw_path: Seq<char>, contents: Seq<char>) -> Option<Seq<char>> {
    if utf8_len(contents) <= 12000 {
        Some(file_block(raw_path, contents))
    } else {
        match truncated(contents, 12000) {
            Some(t) => Some(file_block(raw_path, t + "\n[truncated]"@)),
            None => None,
        }
    }
}

/// The attachment for a `@file:` mention with the file's contents.
pub fn file_attachment(raw_path: &str, contents: &str) -> (r: Option<String>)
    ensures
        r matches Some(s) ==> file_attachment_text(raw_path@, contents@) == Some(s@),
        r is None ==> file_attachment_text(raw_path@, contents@) is None,
{
    let cut = match truncate_to(contents, 12000) {
        Some(t) => t,
        None => {
            return None;
        },
    };
    let mut s = owned("## @file:");
    s.append(raw_path);
    s.append("\n```text\n");
    s.append(cut.as_str());
    let whole = crate::text::str_eq(cut.as_str(), contents);
    if !whole {
        s.append("\n[truncated]");
    }
    s.append("\n```");
    proof {
        crate::context::law_truncated_fits(contents@, 12000);
    }
    Some(s)
}

/// A prompt with its attachments: the prompt unchanged when there are
/// none, else the prompt, `Attached context:` and the attachments
/// separated by blank lines.
pub open spec fn expanded_prompt(prompt: Seq<char>, attachments: Seq<Seq<char>>) -> Seq<char> {
    if attachments.len() == 0 {
        prompt
    } else {
        prompt + "\n\nAttached context:\n"@ + joined_paragraphs(attachments)
    }
}

proof fn lemma_no_mentions(ws: Seq<Seq<char>>, n: nat)
    requires
        n <= ws.len(),
        forall|i: int| 0 <= i < n ==> #[trigger] mention_of(ws[i]) is None,
    ensures
        mentions_upto(ws, n).len() == 0,
    decreases n,
{
    if n > 0 {
        lemma_no_mentions(ws, (n - 1) as nat);
        assert(mention_of(ws[n - 1]) is None);
    }
}

/// With one attachment per mention, as mentions are expanded: a prompt in
/// which no word is `@workspace` or starts with `@file:` is left as it is,
/// and an expanded prompt begins with the prompt and the attachment header.
pub proof fn law_mentions_expand_prompt(prompt: Seq<char>, attachments: Seq<Seq<char>>)
    requires
        attachments.len() == mentions_of(prompt).len(),
    ensures
        (forall|i: int| 0 <= i < words(prompt).len() ==> #[trigger] words(prompt)[i] != "@workspace"@
            && !starts_with(words(prompt)[i], "@file:"@)) ==> expanded_prompt(prompt, attachments)
            == prompt,
        attachments.len() > 0 ==> starts_with(
            expanded_prompt(prompt, attachments),
            prompt + "\n\nAttached context:\n"@,
        ),
{
    let ws = words(prompt);
    if forall|i: int| 0 <= i < ws.len() ==> #[trigger] ws[i] != "@workspace"@ && !starts_with(ws[i], "@file:"@) {
        assert forall|i: int| 0 <= i < ws.len() implies #[trigger] mention_of(ws[i]) is None by {
            assert(ws[i] != "@workspace"@ && !starts_with(ws[i], "@file:"@));
        }
        lemma_no_mentions(ws, ws.len());
    }
    if attachments.len() > 0 {
        let e = expanded_prompt(prompt, attachments);
        let h = prompt + "\n\nAttached context:\n"@;
        assert(e.subrange(0, h.len() as int) =~= h);
    }
}

/// A prompt with the attachments of its mentions, in order.
pub fn expand_at_mentions(prompt: &str, attachments: &Vec<String>) -> (s: String)
    ensures
        s@ == expanded_prompt(prompt@, texts(attachments@)),
{
    if attachments.len() == 0 {
        return owned(prompt);
    }
    let mut s = owned(prompt);
    s.append("\n\nAttached context:\n");
    push_joined(&mut s, attachments, "\n\n");
    s
}

/// The order of a path component's kind: the root, `.`, `..`, then names.
pub open spec fn component_rank(c: Seq<char>) -> nat {
    if c == seq!['/'] {
        1
    } else if c == seq!['.'] {
        2
    } else if c == seq!['.', '.'] {
        3
    } else {
        4
    }
}

/// `Component`'s order: by kind, and names by their text.
pub open spec fn component_less(a: Seq<char>, b: Seq<char>) -> bool {
    component_rank(a) < component_rank(b) || (component_rank(a) == 4 && component_rank(b) == 4
        && text_less(a, b))
}

/// Component lists compared from `i` on, an exhausted list first.
pub open spec fn components_less_from(a: Seq<Seq<char>>, b: Seq<Seq<char>>, i: int) -> bool
    decreases a.len() - i,
{
    if i < 0 {
        false
    } else if i >= a.len() {
        b.len() > i
    } else if i >= b.len() {
        false
    } else if a[i] != b[i] {
        component_less(a[i], b[i])
    } else {
        components_less_from(a, b, i + 1)
    }
}

/// `Path`'s order: its components compared in turn.
pub open spec fn path_less(p: Seq<char>, q: Seq<char>) -> bool {
    components_less_from(components(p), components(q), 0)
}

fn component_less_exec(a: &Vec<char>, b: &Vec<char>) -> (r: bool)
    ensures
        r == component_less(a@, b@),
{
    let ra = component_rank_exec(a);
    let rb = component_rank_exec(b);
    ra < rb || (ra == 4 && rb == 4 && text_less_chars(a, b))
}

fn component_rank_exec(c: &Vec<char>) -> (r: u8)
    ensures
        r as nat == component_rank(c@),
{
    if c.len() == 1 && c[0] == '/' {
        assert(c@ =~= seq!['/']);
        1
    } else if c.len() == 1 && c[0] == '.' {
        assert(c@ =~= seq!['.']);
        2
    } else if c.len() == 2 && c[0] == '.' && c[1] == '.' {
        assert(c@ =~= seq!['.', '.']);
        3
    } else {
        assert(c@ != seq!['/'] && c@ != seq!['.'] && c@ != seq!['.', '.']) by {
            if c@ == seq!['/'] {
                assert(c@.len() == 1 && c@[0] == '/');
            }
            if c@ == seq!['.'] {
                assert(c@.len() == 1 && c@[0] == '.');
            }
            if c@ == seq!['.', '.'] {
                assert(c@.len() == 2 && c@[0] == '.' && c@[1] == '.');
            }
        }
        4
    }
}

/// Whether the path `p` sorts before the path `q`.
pub fn path_less_str(p: &str, q: &str) -> (r: bool)
    ensures
        r == path_less(p@, q@),
{
    let a = components_of(&to_chars(p));
    let b = components_of(&to_chars(q));
    let ghost av = views(a@);
    let ghost bv = views(b@);
    let mut i: usize = 0;
    while i < a.len() && i < b.len() && crate::text::chars_eq(&a[i], &b[i])
        invariant
            i <= a.len(),
            i <= b.len(),
            av == views(a@),
            bv == views(b@),
            av == components(p@),
            bv == components(q@),
            path_less(p@, q@) == components_less_from(av, bv, i as int),
        decreases a.len() - i,
    {
        assert(av[i as int] == a@[i as int]@ && bv[i as int] == b@[i as int]@);
        i = i + 1;
    }
    if i >= a.len() {
        b.len() > i
    } else if i >= b.len() {
        false
    } else {
        assert(av[i as int] == a@[i as int]@ && bv[i as int] == b@[i as int]@);
        component_less_exec(&a[i], &b[i])
    }
}

/// The first place at or after `j` in `r` whose path sorts after `p`.
pub open spec fn first_path_after(r: Seq<int>, paths: Seq<Seq<char>>, p: Seq<char>, j: int) -> int
    decreases r.len() - j,
{
    if j < 0 || j >= r.len() {
        r.len() as int
    } else if path_less(p, paths[r[j]]) {
        j
    } else {
        first_path_after(r, paths, p, j + 1)
    }
}

/// The indices below `n`, ordered by path; equal paths keep their order.
pub open spec fn by_path(paths: Seq<Seq<char>>, n: nat) -> Seq<int>
    decreases n,
{
    if n == 0 {
        seq![]
    } else {
        let r = by_path(paths, (n - 1) as nat);
        r.insert(first_path_after(r, paths, paths[n - 1], 0), n - 1)
    }
}

/// Orders paths as `Vec<PathBuf>::sort` does.
pub fn sort_paths(paths: &Vec<String>) -> (r: Vec<String>)
    ensures
        r@.len() == paths@.len(),
        forall|k: int|
            0 <= k < r@.len() ==> (#[trigger] r@[k])@ == paths@[by_path(texts(paths@), paths@.len())[k]]@,
{
    let ghost pv = texts(paths@);
    let mut order: Vec<usize> = Vec::new();
    let mut i: usize = 0;
    while i < paths.len()
        invariant
            i <= paths.len(),
            pv == texts(paths@),
            order@.map_values(|x: usize| x as int) == by_path(pv, i as nat),
            order@.len() == i,
            forall|k: int| 0 <= k < order.len() ==> #[trigger] order@[k] < i,
        decreases paths.len() - i,
    {
        let ghost ov = order@.map_values(|x: usize| x as int);
        let mut p: usize = 0;
        while p < order.len() && !path_less_str(paths[i].as_str(), paths[order[p]].as_str())
            invariant
                p <= order.len(),
                i < paths.len(),
                pv == texts(paths@),
                ov == order@.map_values(|x: usize| x as int),
                forall|k: int| 0 <= k < order.len() ==> #[trigger] order@[k] < i,
                first_path_after(ov, pv, pv[i as int], 0) == first_path_after(ov, pv, pv[i as int], p as int),
            decreases order.len() - p,
        {
            p = p + 1;
        }
        assert(first_path_after(ov, pv, pv[i as int], p as int) == p);
        let ghost old_order = order@;
        order.insert(p, i);
        assert(order@.map_values(|x: usize| x as int) =~= ov.insert(p as int, i as int));
        assert forall|k: int| 0 <= k < order.len() implies #[trigger] order@[k] < i + 1 by {
            if k < p {
                assert(order@[k] == old_order[k]);
            } else if k > p {
                assert(order@[k] == old_order[k - 1]);
            }
        }
        i = i + 1;
    }
    let ghost ov = order@.map_values(|x: usize| x as int);
    let mut out: Vec<String> = Vec::new();
    let mut k: usize = 0;
    while k < order.len()
        invariant
            k <= order.len(),
            order@.len() == paths@.len(),
            ov == order@.map_values(|x: usize| x as int),
            forall|m: int| 0 <= m < order.len() ==> #[trigger] order@[m] < paths.len(),
            out@.len() == k,
            forall|m: int| 0 <= m < k ==> (#[trigger] out@[m])@ == paths@[ov[m]]@,
        decreases order.len() - k,
    {
        out.push(paths[order[k]].clone());
        k = k + 1;
    }
    out
}


/// Law: a folder walk enters a directory exactly when its name does not
/// start with `.` and is not `target`; so `.git`, `.worktrees` and
/// `.playwright-mcp` are skipped too.
pub proof fn law_folder_walk_dirs(name: Seq<char>)
    ensures
        enters_dir(name) <==> !(name.len() > 0 && name[0] == '.') && name != "target"@,
{
    reveal_strlit("target");
    reveal_strlit(".git");
    reveal_strlit(".worktrees");
    reveal_strlit(".playwright-mcp");
    let ds = skipped_dirs();
    assert(ds[0] == "target"@ && ds[1] == ".git"@ && ds[2] == ".worktrees"@ && ds[3] == ".playwright-mcp"@);
    if ds.contains(name) {
        let i = choose|i: int| 0 <= i < ds.len() && ds[i] == name;
        assert(i == 0 || i == 1 || i == 2 || i == 3);
        if i != 0 {
            assert(name[0] == '.');
        }
    }
    if name == "target"@ {
        assert(ds[0] == name);
    }
}

/// Law: the recent-log report shows every line of a log of at most twenty
/// lines, and the last twenty lines of a longer one, in order.
pub proof fn law_recent_log_last_twenty(raw: Seq<char>)
    ensures
        lines(raw).len() <= 20 ==> recent_log_text(Some(raw)) == "Recent log\n"@ + joined_lines(lines(raw))
            + "\n"@,
        lines(raw).len() > 20 ==> recent_log_text(Some(raw)) == "Recent log\n"@ + joined_lines(
            lines(raw).subrange(lines(raw).len() - 20, lines(raw).len() as int),
        ) + "\n"@,
{
    let ls = lines(raw);
    if ls.len() > 20 {
        assert(ls.skip(ls.len() - 20) =~= ls.subrange(ls.len() - 20, ls.len() as int));
    }
}

/// Law: a `@file:` attachment holds the whole file when it is at most 12000
/// bytes of UTF-8; a longer file is cut to a prefix of at most 12000 bytes,
/// marked `[truncated]`.
pub proof fn law_attachment_limit(raw_path: Seq<char>, contents: Seq<char>)
    ensures
        utf8_len(contents) <= 12000 ==> file_attachment_text(raw_path, contents) == Some(
            file_block(raw_path, contents),
        ),
        utf8_len(contents) > 12000 ==> (file_attachment_text(raw_path, contents) matches Some(a)
            ==> exists|t: Seq<char>|
            #![trigger contents.take(t.len() as int), utf8_len(t)]
            utf8_len(t) <= 12000 && t.len() < contents.len() && t == contents.take(t.len() as int)
                && a == file_block(raw_path, t + "\n[truncated]"@)),
{
    crate::context::law_truncated_fits(contents, 12000);
    if utf8_len(contents) > 12000 {
        if let Some(t) = crate::context::truncated(contents, 12000) {
            assert(t != contents);
            assert(t.len() != contents.len()) by {
                if t.len() == contents.len() {
                    assert(t =~= contents);
                }
            }
        }
    }
}
} // verus!
