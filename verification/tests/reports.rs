use codesmith::cli::CliError;
use codesmith::lint::WikiLintIssue;
use codesmith::reports::{
    at_mentions, check_file_mention, check_ingest_folder, doctor_output, expand_at_mentions,
    file_attachment, ingest_file_output, ingest_folder_output, is_trusted_in, lint_wiki_output,
    log_recent_output, query_output, should_enter_dir, sort_paths, sources_output, tally_ingest,
    wiki_list_output, wiki_search_output, workspace_attachment, AtMention, IngestOutcome,
};
use codesmith::settings::AppSettings;
use codesmith::sources::WikiError;
use codesmith::types::{SourceRecord, SourceStatus, WikiPage, WikiStatus};

fn page(title: &str, domain: &str) -> WikiPage {
    WikiPage {
        id: 1,
        title: title.to_string(),
        domain: domain.to_string(),
        source_count: 1,
        confidence: "1".to_string(),
        status: WikiStatus::Active,
        body: String::new(),
    }
}

#[test]
fn wiki_list_output_shows_saved_page_titles() {
    let output = wiki_list_output(&vec![page("Command: printf cli-ok", "commands")]);

    assert!(output.contains("Saved wiki pages"));
    assert!(output.contains("Command: printf cli-ok"));
    assert_eq!(wiki_list_output(&vec![]), "Saved wiki pages\nnone\n");
}

#[test]
fn wiki_search_output_shows_page_domain_for_matches() {
    let output = wiki_search_output(
        "permission denied",
        &vec![page("Command run: Failed python", "debugging")],
    );

    assert!(output.contains("- [debugging] Command run: Failed python"));
    assert_eq!(wiki_search_output("q", &vec![]), "Wiki search: q\nno matches\n");
}

#[test]
fn trusted_workspace_file_records_and_checks_paths() {
    assert!(!is_trusted_in("", "/tmp/project"));
    let contents = "/other\n  /tmp/project  \n";
    assert!(is_trusted_in(contents, "/tmp/project"));
    assert!(!is_trusted_in(contents, "/tmp/proj"));
}

#[test]
fn at_mentions_expand_workspace_and_workspace_files() {
    let mentions = at_mentions("explain @workspace @file:note.txt");
    assert_eq!(mentions, vec![AtMention::Workspace, AtMention::File("note.txt".to_string())]);
    assert_eq!(check_file_mention("note.txt", "/tmp/project", "/tmp/project/note.txt"), Ok(()));
    let attachments = vec![
        workspace_attachment("/tmp/project"),
        file_attachment("note.txt", "hello mention").unwrap(),
    ];

    let expanded = expand_at_mentions("explain @workspace @file:note.txt", &attachments);

    assert!(expanded.contains("Attached context"));
    assert!(expanded.contains("## @workspace"));
    assert!(expanded.contains("## @file:note.txt"));
    assert!(expanded.contains("hello mention"));
    assert_eq!(expand_at_mentions("plain", &vec![]), "plain");
}

#[test]
fn at_file_mentions_cannot_escape_workspace() {
    let error = check_file_mention("../secret.txt", "/tmp/project", "/tmp/secret.txt")
        .expect_err("outside file should be blocked");

    assert!(error.message().contains("outside trusted workspace"));
    assert_eq!(
        check_file_mention("  ", "/tmp/project", "/tmp/project"),
        Err(CliError::Blank("file mention".to_string()))
    );
}

#[test]
fn long_attachments_are_cut_and_marked() {
    let long = "a".repeat(12_001);
    let text = file_attachment("big.txt", &long).unwrap();
    assert!(text.ends_with("\n[truncated]\n```"));
    assert_eq!(text.len(), "## @file:big.txt\n```text\n".len() + 12_000 + "\n[truncated]\n```".len());
    let split_char = format!("{}é", "a".repeat(11_999));
    assert_eq!(file_attachment("x", &split_char), None);
}

#[test]
fn ingest_reports_and_tally() {
    assert_eq!(
        ingest_file_output("/w/a.md", "00ff", true),
        "Ingest file\npath: /w/a.md\nhash: 00ff\nstatus: skipped\n"
    );
    assert_eq!(
        ingest_folder_output("/w/docs", 2, 1),
        "Ingest folder\npath: /w/docs\ningested: 2\nskipped: 1\n"
    );
    assert_eq!(tally_ingest(0, 0, IngestOutcome::Ingested), Ok((1, 0)));
    assert_eq!(tally_ingest(1, 0, IngestOutcome::Skipped), Ok((1, 1)));
    assert_eq!(
        tally_ingest(1, 1, IngestOutcome::Failed(WikiError::UnsupportedSourceType("/w/x.png".to_string()))),
        Ok((1, 1))
    );
    let other = WikiError::BadRecord("broken".to_string());
    assert_eq!(tally_ingest(1, 1, IngestOutcome::Failed(other.clone())), Err(other));
    assert_eq!(check_ingest_folder("/w", "/w/docs"), Ok(()));
    assert_eq!(
        check_ingest_folder("/w", "/x"),
        Err(CliError::FolderOutsideWorkspace("/x".to_string()))
    );
}

#[test]
fn folder_walks_skip_hidden_and_build_directories() {
    assert!(should_enter_dir("src"));
    assert!(!should_enter_dir(".hidden"));
    assert!(!should_enter_dir("target"));
    assert!(!should_enter_dir(".git"));
    let sorted = sort_paths(&vec!["/w/b".to_string(), "/w/a/z".to_string(), "/w/a".to_string(), "/w/B".to_string()]);
    assert_eq!(sorted, vec!["/w/B", "/w/a", "/w/a/z", "/w/b"]);
}

#[test]
fn query_lint_log_and_sources_reports() {
    assert_eq!(query_output("q", "  \n"), "Query context: q\nno context\n");
    assert_eq!(query_output("q", "ctx"), "Query context: q\nctx\n");
    let issues = vec![WikiLintIssue {
        kind: "broken_wikilink".to_string(),
        path: "wiki/a.md".to_string(),
        message: "missing page for [[X]]".to_string(),
    }];
    assert_eq!(
        lint_wiki_output(&issues),
        "Wiki lint\n- broken_wikilink: missing page for [[X]] (wiki/a.md)\n"
    );
    assert_eq!(lint_wiki_output(&vec![]), "Wiki lint\nno issues\n");
    assert_eq!(log_recent_output(None), "Recent log\nnone\n");
    let log = (1..=25).map(|i| format!("line {i}")).collect::<Vec<_>>().join("\n");
    let recent = log_recent_output(Some(&log));
    assert!(recent.starts_with("Recent log\nline 6\n"));
    assert!(recent.ends_with("line 25\n"));
    let records = vec![SourceRecord {
        id: 1,
        path: "/w/a.md".to_string(),
        hash: "00ff".to_string(),
        kind: "md".to_string(),
        ingested_at: "t".to_string(),
        status: SourceStatus::Active,
    }];
    assert_eq!(sources_output(&records), "Sources\n- 00ff /w/a.md\n");
    assert_eq!(sources_output(&vec![]), "Sources\nnone\n");
}

#[test]
fn doctor_reports_consistent_settings_and_connection() {
    let s = AppSettings::with_workspace("/w".to_string());
    let ok = doctor_output(&s, "/home/u/.codesmith/settings.toml", &Ok(()));
    assert!(ok.starts_with("CodeSmith doctor\nsettings: /home/u/.codesmith/settings.toml\nprofile: default\nbackend: ollama\n"));
    assert!(ok.ends_with("workspace: /w\ntimeout_secs: 120\nConnection OK\n"));
    let failed = doctor_output(&s, "p", &Err("refused".to_string()));
    assert!(failed.ends_with("Connection failed: refused\n"));
}
