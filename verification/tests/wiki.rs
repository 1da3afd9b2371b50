use codesmith::search::score_lowered;
use codesmith::sources::summary_of_text;
use codesmith::context::query_context;
use codesmith::lint::{lint_issues, read_entry};
use codesmith::search::{score_page, search_pages, sort_pages_by_title};
use codesmith::sources::{
    check_source, find_source_by_hash, index_text, log_entry, parse_source_records,
    raw_file_name, source_kind, source_record_line, source_summary, WikiError,
};
use codesmith::types::{SourceRecord, SourceStatus, WikiPage, WikiStatus};
use codesmith::wiki::{fnv1a_hex, new_page, page_file_name, parse_page, render_page, wikilinks};
use std::time::{Duration, Instant};

/// The page files of a wiki folder, kept in memory.
struct Wiki {
    index: String,
    files: Vec<(String, String)>,
}

impl Wiki {
    fn open() -> Self {
        Wiki {
            index: "# CodeSmith Wiki Index\n\nNo sources ingested yet.\n".to_string(),
            files: Vec::new(),
        }
    }

    fn save_page(&mut self, title: &str, domain: &str, body: &str) -> WikiPage {
        let page = new_page(title, domain, body);
        self.files.push((page_file_name(page.id), render_page(&page)));
        page
    }

    fn list_pages(&self) -> Vec<WikiPage> {
        let pages = self
            .files
            .iter()
            .map(|(_, raw)| parse_page(raw).expect("parse wiki page"))
            .collect::<Vec<_>>();
        sort_pages_by_title(pages)
    }

    fn search(&self, query: &str, limit: usize) -> Vec<WikiPage> {
        search_pages(&self.list_pages(), query, limit)
    }

    fn query_context(&self, query: &str, budget: usize) -> String {
        query_context(&self.index, &self.list_pages(), query, budget).expect("cut on a boundary")
    }
}

#[test]
fn saves_loads_and_searches_pages() {
    let mut wiki = Wiki::open();
    wiki.save_page("Cargo Test", "commands", "Use cargo test for Rust checks.");

    let pages = wiki.search("rust checks", 5);

    assert_eq!(pages.len(), 1);
    assert_eq!(pages[0].title, "Cargo Test");
    assert!(pages[0].body.contains("cargo test"));
}

#[test]
fn lists_saved_pages_even_without_a_search_query() {
    let mut wiki = Wiki::open();
    wiki.save_page("Command: echo hello", "commands", "stdout hello");

    let pages = wiki.list_pages();

    assert_eq!(pages.len(), 1);
    assert_eq!(pages[0].title, "Command: echo hello");
}

#[test]
fn lint_wiki_reports_missing_frontmatter_and_broken_links() {
    let entries = vec![read_entry(
        "wiki/bad.md".to_string(),
        "No frontmatter with [[Missing Page]]".to_string(),
    )];

    let issues = lint_issues(&entries);

    assert!(issues.iter().any(|issue| issue.kind == "missing_frontmatter"));
    assert!(issues.iter().any(|issue| issue.kind == "broken_wikilink"));
}

#[test]
fn lint_wiki_reports_duplicate_titles() {
    let mut wiki = Wiki::open();
    wiki.save_page("Duplicate", "source", "first");
    wiki.save_page("Duplicate", "source", "second");
    let entries = wiki
        .files
        .iter()
        .map(|(name, raw)| read_entry(format!("wiki/{name}"), raw.clone()))
        .collect::<Vec<_>>();

    let issues = lint_issues(&entries);

    assert!(issues.iter().any(|issue| issue.kind == "duplicate_title"));
}

#[test]
fn query_context_includes_index_and_matching_pages_with_budget() {
    let mut wiki = Wiki::open();
    wiki.save_page("Rust Notes", "source", "cargo test validates Rust code.");
    wiki.index = "# Index\n- Rust Notes".to_string();

    let context = wiki.query_context("rust code", 400);

    assert!(context.contains("# Index"));
    assert!(context.contains("Rust Notes"));
    assert!(context.len() <= 400);
}

#[test]
fn parses_type_frontmatter_as_wiki_page_domain() {
    let raw = "---\nid: 00000000-0000-0000-0000-000000000001\ntitle: Debug Note\ntype: debugging\nsource_count: 1\nconfidence: 1\nstatus: Active\n---\nroot cause evidence";

    let page = parse_page(raw).expect("parse page with type frontmatter");

    assert_eq!(page.domain, "debugging");
    assert!(page.body.contains("root cause evidence"));
}

#[test]
fn query_context_separates_source_facts_and_run_evidence() {
    let mut wiki = Wiki::open();
    wiki.save_page("Source: README.md (abc12345)", "source", "project facts");
    wiki.save_page("Command run: Failed python", "debugging", "SyntaxError evidence");

    let context = wiki.query_context("python README SyntaxError", 1000);

    assert!(context.contains("## Source facts"));
    assert!(context.contains("project facts"));
    assert!(context.contains("## Prior run evidence"));
    assert!(context.contains("SyntaxError evidence"));
}

#[test]
fn search_prioritizes_prior_run_evidence_over_reference_mentions() {
    let mut wiki = Wiki::open();
    wiki.save_page(
        "Source: permission denied troubleshooting guide",
        "source",
        "Reference notes mention permission and denied separately.",
    );
    wiki.save_page(
        "Command run: Failed chmod",
        "debugging",
        "stderr: permission denied while opening config",
    );

    let pages = wiki.search("permission denied", 5);

    assert_eq!(pages[0].domain, "debugging");
    assert_eq!(pages[0].title, "Command run: Failed chmod");
}

#[test]
fn search_cache_invalidates_after_saving_a_page() {
    let mut wiki = Wiki::open();
    wiki.save_page("Initial", "source", "unrelated notes");

    assert!(wiki.search("fresh evidence", 5).is_empty());

    wiki.save_page("Fresh Evidence", "verification", "fresh evidence");

    let pages = wiki.search("fresh evidence", 5);
    assert!(pages.iter().any(|page| page.title == "Fresh Evidence"));
}

#[test]
fn repeated_synthetic_search_p95_stays_under_100ms_and_hits_top5() {
    for page_count in [100, 1000, 5000] {
        let mut wiki = Wiki::open();
        let target_index = page_count * 7 / 10;
        let target_title = format!("Synthetic page {target_index}");
        for index in 0..page_count {
            let domain = match index % 5 {
                0 => "source",
                1 => "command",
                2 => "debugging",
                3 => "plan",
                _ => "verification",
            };
            let body = if index == target_index {
                "stderr: synthetic needle evidence from python traceback"
            } else {
                "general rust cargo workspace notes"
            };
            wiki.save_page(&format!("Synthetic page {index}"), domain, body);
        }
        let pages = wiki.list_pages();

        let warm_pages = search_pages(&pages, "synthetic needle traceback", 5);
        assert!(warm_pages.iter().any(|page| page.title == target_title));

        let mut durations = Vec::new();
        let mut top_five_hit = false;
        for _ in 0..20 {
            let started = Instant::now();
            let hits = search_pages(&pages, "synthetic needle traceback", 5);
            durations.push(started.elapsed());
            top_five_hit |= hits.iter().any(|page| page.title == target_title);
        }
        durations.sort();
        let p95 = durations[durations.len() * 95 / 100];
        let p50 = durations[durations.len() / 2];
        println!("synthetic wiki search pages={page_count} p50={p50:?} p95={p95:?}");

        assert!(top_five_hit);
        assert!(
            p95 < Duration::from_millis(100),
            "{page_count} page p95 query latency was {p95:?}"
        );
    }
}

fn page(title: &str, domain: &str, body: &str) -> WikiPage {
    WikiPage {
        id: 7,
        title: title.to_string(),
        domain: domain.to_string(),
        source_count: 1,
        confidence: "1".to_string(),
        status: WikiStatus::Active,
        body: body.to_string(),
    }
}

#[test]
fn rendered_pages_read_back_unchanged() {
    let p = WikiPage {
        id: 0x0123_4567_89ab_cdef_0011_2233_4455_6677,
        title: "Notes: a:b".to_string(),
        domain: "plan".to_string(),
        source_count: 42,
        confidence: "0.5".to_string(),
        status: WikiStatus::Archived,
        body: "body with --- inside\nand lines".to_string(),
    };
    let raw = render_page(&p);
    assert!(raw.starts_with("---\nid: 01234567-89ab-cdef-0011-223344556677\ntitle: Notes: a:b\ntype: plan\ndomain: plan\nsource_count: 42\nconfidence: 0.5\nstatus: Archived\n---\n"));
    assert_eq!(parse_page(&raw), Ok(p));
}

#[test]
fn page_read_errors_name_the_missing_field() {
    assert_eq!(parse_page("no dashes"), Err("missing frontmatter".to_string()));
    assert_eq!(parse_page("---\ntitle: t\n---\n"), Err("missing id".to_string()));
    assert_eq!(
        parse_page("---\nid: 00000000-0000-0000-0000-000000000001\n---\n"),
        Err("missing title".to_string())
    );
    assert_eq!(
        parse_page("---\nid: 00000000-0000-0000-0000-000000000001\ntitle: t\n---\n"),
        Err("missing domain".to_string())
    );
    assert_eq!(
        parse_page("---\nid: 0\ntitle: t\n---\n").unwrap_err(),
        uuid::Uuid::parse_str("0").unwrap_err().to_string()
    );
    assert_eq!(
        parse_page("---\nid: 00000000-0000-0000-0000-000000000001\ntitle: t\ntype: x\nsource_count: 99999999999\n---\n"),
        Err("number too large to fit in target type".to_string())
    );
    assert_eq!(
        parse_page("---\nid: 00000000-0000-0000-0000-000000000001\ntitle: t\ntype: x\nsource_count: x1\n---\n"),
        Err("invalid digit found in string".to_string())
    );
}

#[test]
fn page_scores_add_bonuses_and_term_counts() {
    // Title holds "cargo" (8) and the text "cargo test cargo" holds it twice.
    let p = page("Cargo", "notes", "test cargo");
    assert_eq!(score_page(&p, "cargo"), 10);
    // Two terms: whole phrase in the body (24), run evidence (30), terms.
    let q = page("Run", "debugging", "permission denied");
    assert_eq!(score_page(&q, "permission denied"), 24 + 30 + 1 + 1);
    assert_eq!(score_page(&q, ""), 0);
    assert_eq!(score_page(&q, "zzz"), 0);
}

#[test]
fn search_keeps_order_among_equal_scores_and_respects_limit() {
    let pages = vec![
        page("a", "x", "needle"),
        page("b", "x", "needle needle"),
        page("c", "x", "needle"),
        page("d", "x", "nothing"),
    ];
    let hits = search_pages(&pages, "needle", 5);
    let titles = hits.iter().map(|p| p.title.as_str()).collect::<Vec<_>>();
    assert_eq!(titles, vec!["b", "a", "c"]);
    assert_eq!(search_pages(&pages, "needle", 1).len(), 1);
}

#[test]
fn pages_sort_by_title_stably() {
    let pages = vec![page("b", "1", ""), page("a", "2", ""), page("b", "3", ""), page("B", "4", "")];
    let sorted = sort_pages_by_title(pages);
    let order = sorted.iter().map(|p| p.domain.as_str()).collect::<Vec<_>>();
    assert_eq!(order, vec!["4", "2", "1", "3"]);
}

#[test]
fn query_context_cut_inside_a_character_is_refused() {
    let pages = vec![page("T", "source", "é")];
    let full = query_context("", &pages, "t", 10_000).unwrap();
    assert_eq!(full, "## Source facts\n### T\né\n\n");
    let cut = query_context("", &pages, "t", 22).unwrap();
    assert_eq!(cut, "## Source facts\n### T\n");
    assert_eq!(query_context("", &pages, "t", 23), None);
}

#[test]
fn wikilinks_are_trimmed_in_order() {
    assert_eq!(
        wikilinks("see [[ A ]] and [[B]] then [[unclosed"),
        vec!["A".to_string(), "B".to_string()]
    );
}

#[test]
fn fnv1a_hex_matches_known_values() {
    assert_eq!(fnv1a_hex(b""), "cbf29ce484222325");
    assert_eq!(fnv1a_hex(b"a"), "af63dc4c8601ec8c");
}

#[test]
fn source_kinds_and_workspace_checks() {
    assert_eq!(source_kind("/w/docs/Notes.MD"), Ok("md".to_string()));
    assert_eq!(source_kind("/w/README"), Ok("txt".to_string()));
    assert_eq!(source_kind("/w/.bashrc"), Ok("txt".to_string()));
    let err = source_kind("/w/image.png").unwrap_err();
    assert_eq!(err, WikiError::UnsupportedSourceType("/w/image.png".to_string()));
    assert_eq!(err.message(), "unsupported source file type: /w/image.png");
    let err = check_source("/w", "/other/secret.md").unwrap_err();
    assert!(err.message().contains("outside trusted workspace"));
    assert_eq!(check_source("/w", "/w/a/b.rs"), Ok("rs".to_string()));
}

fn record(id: u128, path: &str, hash: &str) -> SourceRecord {
    SourceRecord {
        id,
        path: path.to_string(),
        hash: hash.to_string(),
        kind: "md".to_string(),
        ingested_at: "2024-05-01T10:20:30+00:00".to_string(),
        status: SourceStatus::Active,
    }
}

#[test]
fn source_records_read_back_and_find_by_hash() {
    let first = record(1, "/w/docs/notes.md", "00aa");
    let mut second = record(2, "/w/b.md", "00bb");
    second.status = SourceStatus::Skipped;
    let mut table = String::new();
    table.push_str(&source_record_line(&first));
    table.push_str("not\ta\trecord\n");
    table.push_str(&source_record_line(&second));
    let records = parse_source_records(&table).expect("records");
    assert_eq!(records, vec![first.clone(), second.clone()]);
    assert_eq!(find_source_by_hash(&records, "00bb"), Some(second));
    assert_eq!(find_source_by_hash(&records, "ffff"), None);
    assert!(parse_source_records("x\t/p\th\tk\tt\tActive\n").is_err());
}

#[test]
fn ingest_names_summaries_index_and_log() {
    assert_eq!(
        raw_file_name(1, "/w/docs/notes.md"),
        "00000000-0000-0000-0000-000000000001-notes.md"
    );
    assert_eq!(raw_file_name(1, "/"), "00000000-0000-0000-0000-000000000001-source.txt");
    let r = record(1, "/w/docs/notes.md", "0123456789abcdef");
    let (title, body) = source_summary("/w", &r, b"# Notes\nhello wiki");
    assert_eq!(title, "Source: docs/notes.md (01234567)");
    assert_eq!(
        body,
        "Source path: `/w/docs/notes.md`\n\nHash: `0123456789abcdef`\n\n```text\n# Notes\nhello wiki\n```"
    );
    let (_, lossy) = source_summary("/w", &r, &[0xff]);
    assert!(lossy.contains('\u{FFFD}'));
    assert_eq!(
        index_text(&vec![page("A", "source", "")]),
        "# CodeSmith Wiki Index\n\n- [[A]] (source)\n"
    );
    assert_eq!(
        log_entry("t", "ingest_file", "/w/a.md", "skipped", None),
        "- time: t\n  operation: ingest_file\n  input: /w/a.md\n  status: skipped\n  error: \n"
    );
}

#[test]
fn scores_from_lower_cased_texts() {
    let v = |s: &str| s.chars().collect::<Vec<char>>();
    // Title "run" (no term), body and text hold "denied" once each; one term.
    assert_eq!(score_lowered(&v("run"), &v("denied"), &v("run debugging denied"), &v("denied"), &v("debugging")), 30 + 1);
    assert_eq!(score_lowered(&v("a b"), &v(""), &v("a b x"), &v("a b"), &v("x")), 12 + 8 + 1 + 8 + 1);
}

#[test]
fn summaries_of_decoded_text_preview_four_thousand_characters() {
    let r = record(1, "/elsewhere/x.md", "abc");
    let text = "é".repeat(4001);
    let (title, body) = summary_of_text("/w", &r, &text);
    assert_eq!(title, "Source: /elsewhere/x.md (abc)");
    assert!(body.ends_with(&format!("{}\n```", "é".repeat(4000))));
}
