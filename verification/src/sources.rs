//! Ingested sources: which files the wiki takes, their record table, the
//! summary page written for each, the wiki index and the operation log.

use vstd::prelude::*;
use crate::path::{
    extension, extension_of, file_name, file_name_of, path_starts_with, path_starts_with_str,
    path_strip_prefix, strip_path_prefix,
};
use crate::text::{
    ascii_lower, ascii_lower_chars, has_char, is_text, lemma_lines_append, lemma_lines_cons,
    lemma_no_char_concat, lemma_split_cons, lemma_split_single, lines, lines_chars, owned, split,
    split_chars, str_eq, string_of, to_chars, views,
};
use crate::types::{
    lemma_uuid_text_chars, lemma_uuid_text_shape, uuid_text, uuid_text_of, SourceRecord,
    SourceStatus, WikiPage,
};
use crate::wiki::{lemma_uuid_read_text, parse_uuid, uuid_read};

verus! {

/// Why the wiki refuses a source or its record table.
#[derive(Clone, Debug, PartialEq, Eq)]
pub enum WikiError {
    /// The file's extension is not one the wiki reads.
    UnsupportedSourceType(String),
    /// The file lies outside the trusted workspace.
    SourceOutsideWorkspace(String),
    /// A line of the record table holds a value that does not parse; the
    /// text is the parser's message.
    BadRecord(String),
}

/// The message of a wiki error.
pub open spec fn wiki_error_text(e: WikiError) -> Seq<char> {
    match e {
        WikiError::UnsupportedSourceType(p) => "unsupported source file type: "@ + p@,
        WikiError::SourceOutsideWorkspace(p) => "source path is outside trusted workspace: "@ + p@,
        WikiError::BadRecord(m) => m@,
    }
}

impl WikiError {
    /// The error's message.
    pub fn message(&self) -> (s: String)
        ensures
            s@ == wiki_error_text(*self),
    {
        match self {
            WikiError::UnsupportedSourceType(p) => {
                let mut s = owned("unsupported source file type: ");
                s.append(p.as_str());
                s
            },
            WikiError::SourceOutsideWorkspace(p) => {
                let mut s = owned("source path is outside trusted workspace: ");
                s.append(p.as_str());
                s
            },
            WikiError::BadRecord(m) => m.clone(),
        }
    }
}

/// The extensions the wiki reads, lower case.
pub open spec fn supported_kinds() -> Seq<Seq<char>> {
    seq!["txt"@, "md"@, "markdown"@, "toml"@, "json"@, "rs"@, "py"@]
}

/// The kind of a source, when the wiki reads it: its extension in ASCII
/// lower case, `txt` when it has none, if that is a supported kind.
pub open spec fn source_kind_of(p: Seq<char>) -> Option<Seq<char>> {
    let ext = ascii_lower(
        match extension(p) {
            Some(e) => e,
            None => "txt"@,
        },
    );
    if supported_kinds().contains(ext) {
        Some(ext)
    } else {
        None
    }
}

/// Law: the kind of a source is its extension in ASCII lower case when that
/// is `txt`, `md`, `markdown`, `toml`, `json`, `rs` or `py`, and `txt` for a
/// file without an extension; any other extension is not supported.
pub proof fn law_supported_source_kinds(p: Seq<char>)
    ensures
        extension(p) is None ==> source_kind_of(p) == Some("txt"@),
        extension(p) matches Some(e) ==> {
            let k = ascii_lower(e);
            (k == "txt"@ || k == "md"@ || k == "markdown"@ || k == "toml"@ || k == "json"@ || k
                == "rs"@ || k == "py"@) ==> source_kind_of(p) == Some(k)
        },
        extension(p) matches Some(e) ==> {
            let k = ascii_lower(e);
            (k != "txt"@ && k != "md"@ && k != "markdown"@ && k != "toml"@ && k != "json"@ && k
                != "rs"@ && k != "py"@) ==> source_kind_of(p) is None
        },
{
    let ks = supported_kinds();
    assert(ks[0] == "txt"@ && ks[1] == "md"@ && ks[2] == "markdown"@ && ks[3] == "toml"@);
    assert(ks[4] == "json"@ && ks[5] == "rs"@ && ks[6] == "py"@);
    reveal_strlit("txt");
    assert(ascii_lower("txt"@) =~= "txt"@);
    if let Some(e) = extension(p) {
        let k = ascii_lower(e);
        if ks.contains(k) {
            let i = choose|i: int| 0 <= i < ks.len() && ks[i] == k;
            assert(i == 0 || i == 1 || i == 2 || i == 3 || i == 4 || i == 5 || i == 6);
        }
    }
}

/// The kind of a source file, or the error that it is not supported.
pub fn source_kind(path: &str) -> (r: Result<String, WikiError>)
    ensures
        match source_kind_of(path@) {
            Some(k) => r matches Ok(s) && s@ == k,
            None => r matches Err(WikiError::UnsupportedSourceType(q)) && q@ == path@,
        },
{
    let ext = match extension_of(path) {
        Some(e) => to_chars(e.as_str()),
        None => to_chars("txt"),
    };
    let lower = ascii_lower_chars(&ext);
    proof {
        reveal_strlit("txt");
        reveal_strlit("md");
        reveal_strlit("markdown");
        reveal_strlit("toml");
        reveal_strlit("json");
        reveal_strlit("rs");
        reveal_strlit("py");
    }
    let ok = is_text(&lower, "txt") || is_text(&lower, "md") || is_text(&lower, "markdown")
        || is_text(&lower, "toml") || is_text(&lower, "json") || is_text(&lower, "rs") || is_text(
        &lower,
        "py",
    );
    let ghost kinds = supported_kinds();
    assert(ok == kinds.contains(lower@)) by {
        if kinds.contains(lower@) {
            let k = choose|k: int| 0 <= k < kinds.len() && kinds[k] == lower@;
            assert(0 <= k < 7);
        }
        if ok {
            if lower@ == "txt"@ {
                assert(kinds[0] == lower@);
            } else if lower@ == "md"@ {
                assert(kinds[1] == lower@);
            } else if lower@ == "markdown"@ {
                assert(kinds[2] == lower@);
            } else if lower@ == "toml"@ {
                assert(kinds[3] == lower@);
            } else if lower@ == "json"@ {
                assert(kinds[4] == lower@);
            } else if lower@ == "rs"@ {
                assert(kinds[5] == lower@);
            } else {
                assert(kinds[6] == lower@);
            }
        }
    }
    if ok {
        Ok(string_of(&lower))
    } else {
        Err(WikiError::UnsupportedSourceType(owned(path)))
    }
}

/// Checks a source before it is ingested: it must lie in the workspace and
/// be of a supported kind, which is returned.
pub fn check_source(workspace: &str, source: &str) -> (r: Result<String, WikiError>)
    ensures
        !path_starts_with(source@, workspace@) ==> (r matches Err(
            WikiError::SourceOutsideWorkspace(q),
        ) && q@ == source@),
        path_starts_with(source@, workspace@) ==> match source_kind_of(source@) {
            Some(k) => r matches Ok(s) && s@ == k,
            None => r matches Err(WikiError::UnsupportedSourceType(q)) && q@ == source@,
        },
{
    if !path_starts_with_str(source, workspace) {
        return Err(WikiError::SourceOutsideWorkspace(owned(source)));
    }
    source_kind(source)
}

/// The name a source's copy takes in the raw folder: the record id, a `-`,
/// and the source's file name, or `source.txt` when it has none.
pub open spec fn raw_name_of(id: u128, source: Seq<char>) -> Seq<char> {
    uuid_text_of(id) + "-"@ + match file_name(source) {
        Some(n) => n,
        None => "source.txt"@,
    }
}

/// The name a source's copy takes in the raw folder.
pub fn raw_file_name(id: u128, source: &str) -> (s: String)
    ensures
        s@ == raw_name_of(id, source@),
{
    let mut s = uuid_text(id);
    s.append("-");
    match file_name_of(source) {
        Some(n) => s.append(n.as_str()),
        None => s.append("source.txt"),
    }
    s
}

/// A source record as plain values.
pub struct RecordView {
    pub id: u128,
    pub path: Seq<char>,
    pub hash: Seq<char>,
    pub kind: Seq<char>,
    pub ingested_at: Seq<char>,
    pub status: SourceStatus,
}

impl View for SourceRecord {
    type V = RecordView;

    open spec fn view(&self) -> RecordView {
        RecordView {
            id: self.id,
            path: self.path@,
            hash: self.hash@,
            kind: self.kind@,
            ingested_at: self.ingested_at@,
            status: self.status,
        }
    }
}

/// The records as plain values.
pub open spec fn record_views(rs: Seq<SourceRecord>) -> Seq<RecordView> {
    rs.map_values(|r: SourceRecord| r@)
}

/// A copy of a record.
pub fn clone_record(r: &SourceRecord) -> (c: SourceRecord)
    ensures
        c@ == r@,
{
    SourceRecord {
        id: r.id,
        path: r.path.clone(),
        hash: r.hash.clone(),
        kind: r.kind.clone(),
        ingested_at: r.ingested_at.clone(),
        status: r.status,
    }
}

/// The first record with a given hash.
pub fn find_source_by_hash(records: &Vec<SourceRecord>, hash: &str) -> (r: Option<SourceRecord>)
    ensures
        r matches Some(c) ==> exists|i: int|
            0 <= i < records@.len() && records@[i].hash@ == hash@ && c@ == records@[i]@ && forall|
                j: int,
            |
                0 <= j < i ==> (#[trigger] records@[j]).hash@ != hash@,
        r is None ==> forall|i: int| 0 <= i < records@.len() ==> (#[trigger] records@[i]).hash@ != hash@,
{
    let mut i: usize = 0;
    while i < records.len()
        invariant
            i <= records.len(),
            forall|j: int| 0 <= j < i ==> (#[trigger] records@[j]).hash@ != hash@,
        decreases records.len() - i,
    {
        if str_eq(records[i].hash.as_str(), hash) {
            return Some(clone_record(&records[i]));
        }
        i = i + 1;
    }
    None
}

/// The table name of a source status.
pub open spec fn source_status_name(s: SourceStatus) -> Seq<char> {
    match s {
        SourceStatus::Active => "Active"@,
        SourceStatus::Skipped => "Skipped"@,
        SourceStatus::Failed => "Failed"@,
    }
}

/// The status a table name stands for: `Skipped`, `Failed`, and `Active`
/// for anything else.
pub open spec fn source_status_named(s: Seq<char>) -> SourceStatus {
    if s == "Skipped"@ {
        SourceStatus::Skipped
    } else if s == "Failed"@ {
        SourceStatus::Failed
    } else {
        SourceStatus::Active
    }
}

/// A record's line in the record table: six fields separated by tabs.
pub open spec fn record_line(r: RecordView) -> Seq<char> {
    uuid_text_of(r.id) + "\t"@ + r.path + "\t"@ + r.hash + "\t"@ + r.kind + "\t"@ + r.ingested_at
        + "\t"@ + source_status_name(r.status) + "\n"@
}

/// A record's line in the record table.
pub fn source_record_line(r: &SourceRecord) -> (s: String)
    ensures
        s@ == record_line(r@),
{
    let mut s = uuid_text(r.id);
    s.append("\t");
    s.append(r.path.as_str());
    s.append("\t");
    s.append(r.hash.as_str());
    s.append("\t");
    s.append(r.kind.as_str());
    s.append("\t");
    s.append(r.ingested_at.as_str());
    s.append("\t");
    let status = match r.status {
        SourceStatus::Active => "Active",
        SourceStatus::Skipped => "Skipped",
        SourceStatus::Failed => "Failed",
    };
    s.append(status);
    s.append("\n");
    assert(s@ =~= record_line(r@));
    s
}

/// What chrono reads from a time text (`str::parse::<DateTime<Utc>>`): the
/// time written back in RFC 3339, or the text of its error.
pub uninterp spec fn utc_time_parsed(s: Seq<char>) -> Result<Seq<char>, Seq<char>>;

/// A result of two texts, as plain values.
pub open spec fn texts_result(r: Result<String, String>) -> Result<Seq<char>, Seq<char>> {
    match r {
        Ok(t) => Ok(t@),
        Err(e) => Err(e@),
    }
}

/// `str::parse::<chrono::DateTime<chrono::Utc>>`, as the RFC 3339 text of
/// the time read (`DateTime::to_rfc3339`) or the error's text.
#[verifier::external_body]
fn parse_utc_time(s: &str) -> (r: Result<String, String>)
    ensures
        texts_result(r) == utc_time_parsed(s@),
{
    match s.parse::<chrono::DateTime<chrono::Utc>>() {
        Ok(t) => Ok(t.to_rfc3339()),
        Err(e) => Err(e.to_string()),
    }
}

/// What one line of the record table gives: no record when it does not
/// hold six fields, else the record or the first error of its id or time.
pub open spec fn record_of_line(line: Seq<char>) -> Option<Result<RecordView, Seq<char>>> {
    let parts = split(line, '\t');
    if parts.len() != 6 {
        None
    } else {
        match uuid_read(parts[0]) {
            Err(e) => Some(Err(e)),
            Ok(id) => match utc_time_parsed(parts[4]) {
                Err(e) => Some(Err(e)),
                Ok(t) => Some(
                    Ok(
                        RecordView {
                            id,
                            path: parts[1],
                            hash: parts[2],
                            kind: parts[3],
                            ingested_at: t,
                            status: source_status_named(parts[5]),
                        },
                    ),
                ),
            },
        }
    }
}

/// The records of the first `n` lines, or the first error among them.
pub open spec fn records_upto(ls: Seq<Seq<char>>, n: nat) -> Result<Seq<RecordView>, Seq<char>>
    decreases n,
{
    if n == 0 {
        Ok(seq![])
    } else {
        match records_upto(ls, (n - 1) as nat) {
            Err(e) => Err(e),
            Ok(rs) => match record_of_line(ls[n - 1]) {
                None => Ok(rs),
                Some(Err(e)) => Err(e),
                Some(Ok(r)) => Ok(rs.push(r)),
            },
        }
    }
}

/// What the record table gives: its records in order, or the first error.
pub open spec fn records_of(raw: Seq<char>) -> Result<Seq<RecordView>, Seq<char>> {
    records_upto(lines(raw), lines(raw).len())
}

proof fn lemma_records_err(ls: Seq<Seq<char>>, n: nat, m: nat)
    requires
        n <= m,
        records_upto(ls, n) is Err,
    ensures
        records_upto(ls, m) == records_upto(ls, n),
    decreases m - n,
{
    if n < m {
        lemma_records_err(ls, n, (m - 1) as nat);
    }
}

fn read_record_line(line: &Vec<char>) -> (r: Option<Result<SourceRecord, String>>)
    ensures
        match record_of_line(line@) {
            None => r is None,
            Some(Err(e)) => r matches Some(Err(m)) && m@ == e,
            Some(Ok(v)) => r matches Some(Ok(c)) && c@ == v,
        },
{
    let parts = split_chars(line, '\t');
    if parts.len() != 6 {
        return None;
    }
    assert(views(parts@)[0] == parts@[0]@);
    assert(views(parts@)[1] == parts@[1]@);
    assert(views(parts@)[2] == parts@[2]@);
    assert(views(parts@)[3] == parts@[3]@);
    assert(views(parts@)[4] == parts@[4]@);
    assert(views(parts@)[5] == parts@[5]@);
    let id_text = string_of(&parts[0]);
    let id = match parse_uuid(id_text.as_str()) {
        Ok(id) => id,
        Err(e) => {
            return Some(Err(e));
        },
    };
    let time_text = string_of(&parts[4]);
    let time = match parse_utc_time(time_text.as_str()) {
        Ok(t) => t,
        Err(e) => {
            return Some(Err(e));
        },
    };
    let status = if is_text(&parts[5], "Skipped") {
        SourceStatus::Skipped
    } else if is_text(&parts[5], "Failed") {
        SourceStatus::Failed
    } else {
        SourceStatus::Active
    };
    Some(
        Ok(
            SourceRecord {
                id,
                path: string_of(&parts[1]),
                hash: string_of(&parts[2]),
                kind: string_of(&parts[3]),
                ingested_at: time,
                status,
            },
        ),
    )
}

/// Reads the record table: the records of its lines with six fields, or
/// the text of the first id or time that does not parse.
pub fn parse_source_records(raw: &str) -> (r: Result<Vec<SourceRecord>, String>)
    ensures
        match records_of(raw@) {
            Ok(rs) => r matches Ok(v) && record_views(v@) == rs,
            Err(e) => r matches Err(m) && m@ == e,
        },
{
    let v = to_chars(raw);
    let ls = lines_chars(&v);
    let ghost lv = lines(raw@);
    let mut out: Vec<SourceRecord> = Vec::new();
    assert(record_views(out@) =~= Seq::<RecordView>::empty());
    let mut i: usize = 0;
    while i < ls.len()
        invariant
            i <= ls.len(),
            views(ls@) == lv,
            lv == lines(raw@),
            records_upto(lv, i as nat) == Ok::<Seq<RecordView>, Seq<char>>(record_views(out@)),
        decreases ls.len() - i,
    {
        assert(lv[i as int] == ls@[i as int]@);
        match read_record_line(&ls[i]) {
            None => {},
            Some(Err(e)) => {
                proof {
                    lemma_records_err(lv, (i + 1) as nat, lv.len());
                }
                return Err(e);
            },
            Some(Ok(rec)) => {
                let ghost before = record_views(out@);
                out.push(rec);
                assert(record_views(out@) =~= before.push(rec@));
            },
        }
        i = i + 1;
    }
    Ok(out)
}

/// What `String::from_utf8_lossy` gives for some bytes: the text they
/// encode, each invalid sequence replaced by U+FFFD.
pub uninterp spec fn utf8_lossy(b: Seq<u8>) -> Seq<char>;

/// `String::from_utf8_lossy`, owned. Valid UTF-8 decodes to its text.
#[verifier::external_body]
fn lossy_text(bytes: &[u8]) -> (s: String)
    ensures
        s@ == utf8_lossy(bytes@),
        vstd::utf8::valid_utf8(bytes@) ==> s@ == vstd::utf8::decode_utf8(bytes@),
{
    String::from_utf8_lossy(bytes).into_owned()
}

/// The first `n` characters of `s`, or all of them.
pub open spec fn first_chars(s: Seq<char>, n: nat) -> Seq<char> {
    if s.len() <= n {
        s
    } else {
        s.take(n as int)
    }
}

fn take_chars(s: &str, n: usize) -> (r: String)
    ensures
        r@ == first_chars(s@, n as nat),
{
    let v = to_chars(s);
    if v.len() <= n {
        return owned(s);
    }
    let w = crate::text::slice(&v, 0, n);
    assert(w@ =~= v@.take(n as int));
    string_of(&w)
}

/// The title of a source's summary page: `Source:`, the source's path
/// relative to the workspace (the whole path when it is not inside), and
/// the first eight characters of its hash in brackets.
pub open spec fn summary_title(workspace: Seq<char>, r: RecordView) -> Seq<char> {
    "Source: "@ + match path_strip_prefix(r.path, workspace) {
        Some(rel) => rel,
        None => r.path,
    } + " ("@ + first_chars(r.hash, 8) + ")"@
}

/// The body of a source's summary page for its decoded text: its path and
/// hash, then a preview of the text's first 4000 characters in a text block.
pub open spec fn summary_body_text(r: RecordView, text: Seq<char>) -> Seq<char> {
    "Source path: `"@ + r.path + "`\n\nHash: `"@ + r.hash + "`\n\n```text\n"@ + first_chars(
        text,
        4000,
    ) + "\n```"@
}

/// The body of a source's summary page for its bytes, decoded as
/// `String::from_utf8_lossy` decodes them.
pub open spec fn summary_body(r: RecordView, bytes: Seq<u8>) -> Seq<char> {
    summary_body_text(r, utf8_lossy(bytes))
}

/// The title and body of the summary page for an ingested source.
pub fn source_summary(workspace: &str, record: &SourceRecord, bytes: &[u8]) -> (r: (String, String))
    ensures
        r.0@ == summary_title(workspace@, record@),
        r.1@ == summary_body(record@, bytes@),
{
    let text = lossy_text(bytes);
    summary_of_text(workspace, record, text.as_str())
}

/// The title and body of the summary page for a source's decoded text.
pub fn summary_of_text(workspace: &str, record: &SourceRecord, text: &str) -> (r: (String, String))
    ensures
        r.0@ == summary_title(workspace@, record@),
        r.1@ == summary_body_text(record@, text@),
{
    let label = match strip_path_prefix(record.path.as_str(), workspace) {
        Some(rel) => rel,
        None => record.path.clone(),
    };
    let mut title = owned("Source: ");
    title.append(label.as_str());
    title.append(" (");
    let short = take_chars(record.hash.as_str(), 8);
    title.append(short.as_str());
    title.append(")");
    let preview = take_chars(text, 4000);
    let mut body = owned("Source path: `");
    body.append(record.path.as_str());
    body.append("`\n\nHash: `");
    body.append(record.hash.as_str());
    body.append("`\n\n```text\n");
    body.append(preview.as_str());
    body.append("\n```");
    (title, body)
}

/// The index lines of the first pages: `- [[title]] (domain)` each.
pub open spec fn index_lines(pages: Seq<WikiPage>) -> Seq<char>
    decreases pages.len(),
{
    if pages.len() == 0 {
        seq![]
    } else {
        index_lines(pages.drop_last()) + "- [["@ + pages.last().title@ + "]] ("@
            + pages.last().domain@ + ")\n"@
    }
}

/// The wiki index for some pages.
pub fn index_text(pages: &Vec<WikiPage>) -> (s: String)
    ensures
        s@ == "# CodeSmith Wiki Index\n\n"@ + index_lines(pages@),
{
    let mut s = owned("# CodeSmith Wiki Index\n\n");
    let mut i: usize = 0;
    while i < pages.len()
        invariant
            i <= pages.len(),
            s@ == "# CodeSmith Wiki Index\n\n"@ + index_lines(pages@.take(i as int)),
        decreases pages.len() - i,
    {
        assert(pages@.take(i + 1).drop_last() =~= pages@.take(i as int));
        s.append("- [[");
        s.append(pages[i].title.as_str());
        s.append("]] (");
        s.append(pages[i].domain.as_str());
        s.append(")\n");
        i = i + 1;
    }
    assert(pages@.take(i as int) =~= pages@);
    s
}

/// One entry of the operation log.
pub open spec fn log_entry_text(
    time: Seq<char>,
    operation: Seq<char>,
    input: Seq<char>,
    status: Seq<char>,
    error: Seq<char>,
) -> Seq<char> {
    "- time: "@ + time + "\n  operation: "@ + operation + "\n  input: "@ + input + "\n  status: "@
        + status + "\n  error: "@ + error + "\n"@
}

/// One entry of the operation log; a missing error is written empty.
pub fn log_entry(time: &str, operation: &str, input: &str, status: &str, error: Option<&str>) -> (s:
    String)
    ensures
        s@ == log_entry_text(
            time@,
            operation@,
            input@,
            status@,
            match error {
                Some(e) => e@,
                None => seq![],
            },
        ),
{
    let mut s = owned("- time: ");
    s.append(time);
    s.append("\n  operation: ");
    s.append(operation);
    s.append("\n  input: ");
    s.append(input);
    s.append("\n  status: ");
    s.append(status);
    s.append("\n  error: ");
    match error {
        Some(e) => s.append(e),
        None => {},
    }
    s.append("\n");
    s
}

/// A record field that the table holds in one cell: no tab, no line break.
pub open spec fn is_cell(s: Seq<char>) -> bool {
    !has_char(s, '\t') && !has_char(s, '\n')
}

proof fn lemma_records_prefix(a: Seq<Seq<char>>, b: Seq<Seq<char>>, n: nat)
    requires
        n <= a.len(),
        n <= b.len(),
        forall|i: int| 0 <= i < n ==> a[i] == b[i],
    ensures
        records_upto(a, n) == records_upto(b, n),
    decreases n,
{
    if n > 0 {
        lemma_records_prefix(a, b, (n - 1) as nat);
    }
}

/// The cells of a record's line, before its line break.
pub open spec fn record_cells(r: RecordView) -> Seq<Seq<char>> {
    seq![uuid_text_of(r.id), r.path, r.hash, r.kind, r.ingested_at, source_status_name(r.status)]
}

/// A record's line without its line break splits into its six cells, holds
/// no line break and does not end in a carriage return.
proof fn lemma_record_cells(r: RecordView)
    requires
        is_cell(r.path),
        is_cell(r.hash),
        is_cell(r.kind),
        is_cell(r.ingested_at),
    ensures
        record_line(r) == record_body(r) + seq!['\n'],
        split(record_body(r), '\t') == record_cells(r),
        !has_char(record_body(r), '\n'),
        record_body(r).len() > 0 && record_body(r).last() != '\r',
{
    reveal_strlit("\t");
    reveal_strlit("\n");
    reveal_strlit("Active");
    reveal_strlit("Skipped");
    reveal_strlit("Failed");
    let u = uuid_text_of(r.id);
    lemma_uuid_text_shape(r.id);
    let st = source_status_name(r.status);
    assert(!has_char(st, '\t') && !has_char(st, '\n'));
    assert(!has_char(u, '\t')) by {
        assert forall|k: int| 0 <= k < u.len() implies u[k] != '\t' by {
            lemma_uuid_text_chars(r.id, k);
        }
    }
    let t = seq!['\t'];
    let c5 = st;
    let c4 = r.ingested_at + t + c5;
    let c3 = r.kind + t + c4;
    let c2 = r.hash + t + c3;
    let c1 = r.path + t + c2;
    let c0 = u + t + c1;
    assert(record_body(r) =~= c0);
    assert(record_line(r) =~= c0 + seq!['\n']);
    lemma_split_single(c5, '\t');
    lemma_split_cons(r.ingested_at, '\t', c5);
    lemma_split_cons(r.kind, '\t', c4);
    lemma_split_cons(r.hash, '\t', c3);
    lemma_split_cons(r.path, '\t', c2);
    lemma_split_cons(u, '\t', c1);
    assert(split(c0, '\t') =~= record_cells(r));
    assert(!has_char(t, '\n'));
    lemma_no_char_concat(r.ingested_at, t, '\n');
    lemma_no_char_concat(r.ingested_at + t, c5, '\n');
    lemma_no_char_concat(r.kind, t, '\n');
    lemma_no_char_concat(r.kind + t, c4, '\n');
    lemma_no_char_concat(r.hash, t, '\n');
    lemma_no_char_concat(r.hash + t, c3, '\n');
    lemma_no_char_concat(r.path, t, '\n');
    lemma_no_char_concat(r.path + t, c2, '\n');
    lemma_no_char_concat(u, t, '\n');
    lemma_no_char_concat(u + t, c1, '\n');
    assert(c0.last() == st.last());
}

/// A record's line without its line break.
pub open spec fn record_body(r: RecordView) -> Seq<char> {
    uuid_text_of(r.id) + "\t"@ + r.path + "\t"@ + r.hash + "\t"@ + r.kind + "\t"@ + r.ingested_at
        + "\t"@ + source_status_name(r.status)
}

/// Writing a record's line after the record table and reading the table
/// back gives the records read before, then the record: when the table is
/// empty or ends its last line, reads without error, the record's path,
/// hash, kind and time hold no tab or line break, and the time parser
/// reads the record's time back unchanged (as it does RFC 3339 text).
pub proof fn law_record_append(raw: Seq<char>, r: RecordView)
    requires
        raw.len() == 0 || raw.last() == '\n',
        records_of(raw) is Ok,
        is_cell(r.path),
        is_cell(r.hash),
        is_cell(r.kind),
        is_cell(r.ingested_at),
        utc_time_parsed(r.ingested_at) == Ok::<Seq<char>, Seq<char>>(r.ingested_at),
    ensures
        records_of(raw + record_line(r)) == Ok::<Seq<RecordView>, Seq<char>>(
            records_of(raw)->Ok_0.push(r),
        ),
{
    lemma_uuid_read_text(r.id);
    reveal_strlit("Active");
    reveal_strlit("Skipped");
    reveal_strlit("Failed");
    lemma_record_cells(r);
    let body = record_body(r);
    let e = Seq::<char>::empty();
    lemma_lines_cons(body, e);
    assert(body + seq!['\n'] + e =~= record_line(r));
    assert(lines(e) =~= Seq::<Seq<char>>::empty());
    lemma_lines_append(raw, record_line(r));
    let ls0 = lines(raw);
    let ls = lines(raw + record_line(r));
    assert(ls =~= ls0.push(body));
    let n0 = ls0.len();
    lemma_records_prefix(ls, ls0, n0);
    assert(source_status_named(source_status_name(r.status)) == r.status);
    assert(record_of_line(body) == Some(Ok::<RecordView, Seq<char>>(r)));
}

/// A source whose record was appended is known by its hash when the table
/// is read again, so `find_source_by_hash` finds a record and a second
/// ingest of the same content is skipped.
pub proof fn law_appended_source_is_known(raw: Seq<char>, r: RecordView)
    requires
        raw.len() == 0 || raw.last() == '\n',
        records_of(raw) is Ok,
        is_cell(r.path),
        is_cell(r.hash),
        is_cell(r.kind),
        is_cell(r.ingested_at),
        utc_time_parsed(r.ingested_at) == Ok::<Seq<char>, Seq<char>>(r.ingested_at),
    ensures
        records_of(raw + record_line(r)) is Ok,
        exists|i: int|
            0 <= i < records_of(raw + record_line(r))->Ok_0.len() && (#[trigger] records_of(
                raw + record_line(r),
            )->Ok_0[i]).hash == r.hash,
{
    law_record_append(raw, r);
    let rs = records_of(raw + record_line(r))->Ok_0;
    assert(rs[rs.len() - 1] == r);
}

} // verus!
