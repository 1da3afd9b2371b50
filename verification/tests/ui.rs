use codesmith::settings::AppSettings;
use codesmith::types::{ChatRole, CommandProposal, CommandRun, CommandStatus};
use codesmith::ui::{
    active_backend_label, cjk_font_candidates, empty_pending_proposals_text,
    llm_wait_indicator_text, role_label, status_tone, take_proposal, Tone, run_copy_text,
    run_wiki_page, follow_up_prompt,
};
use std::path::Path;

#[test]
fn cjk_font_candidates_include_macos_korean_font() {
    let candidates = cjk_font_candidates();

    assert!(candidates
        .iter()
        .any(|path| Path::new(path).ends_with("AppleSDGothicNeo.ttc")));
}

#[test]
fn role_labels_are_compact_for_chat_headers() {
    assert_eq!(role_label(ChatRole::User), "You");
    assert_eq!(role_label(ChatRole::Assistant), "CodeSmith");
    assert_eq!(role_label(ChatRole::System), "System");
    assert_eq!(role_label(ChatRole::Tool), "Tool");
}

#[test]
fn command_status_tone_marks_blocked_and_failed_as_error() {
    assert_eq!(status_tone(CommandStatus::Blocked), Tone::Danger);
    assert_eq!(status_tone(CommandStatus::Failed), Tone::Danger);
    assert_eq!(status_tone(CommandStatus::Succeeded), Tone::Success);
    assert_eq!(status_tone(CommandStatus::Running), Tone::Accent);
}

#[test]
fn taking_proposal_removes_it_from_pending_list() {
    let mut proposals = vec![
        CommandProposal::new("echo first", ".", "first"),
        CommandProposal::new("echo second", ".", "second"),
    ];

    let proposal = take_proposal(&mut proposals, 0).expect("proposal should exist");

    assert_eq!(proposal.command, "echo first");
    assert_eq!(proposals.len(), 1);
    assert_eq!(proposals[0].command, "echo second");
    assert!(take_proposal(&mut proposals, 99).is_none());
}

#[test]
fn llm_wait_indicator_only_shows_while_waiting_for_response() {
    assert_eq!(
        llm_wait_indicator_text("Waiting for local LLM"),
        Some("CodeSmith is generating a response...")
    );
    assert_eq!(llm_wait_indicator_text("Ready"), None);
    assert_eq!(llm_wait_indicator_text("Running approved command"), None);
}

#[test]
fn empty_pending_proposals_text_explains_where_approved_items_go() {
    assert_eq!(
        empty_pending_proposals_text(),
        "No pending approvals. Approved or rejected proposals are recorded under Runs."
    );
}

#[test]
fn other_statuses_are_muted_and_backend_label_falls_back() {
    assert_eq!(status_tone(CommandStatus::PendingApproval), Tone::Muted);
    assert_eq!(status_tone(CommandStatus::TimedOut), Tone::Danger);
    let mut s = AppSettings::with_workspace("/w".to_string());
    assert_eq!(active_backend_label(&s), "ollama");
    s.active_profile = "none".to_string();
    assert_eq!(active_backend_label(&s), "missing");
}

#[test]
fn run_actions_give_copy_text_wiki_page_and_follow_up() {
    let run = CommandRun {
        id: 1,
        proposal: CommandProposal::new("ls", "/w", "look"),
        status: CommandStatus::Succeeded,
        stdout: "a".to_string(),
        stderr: "b".to_string(),
        exit_code: Some(0),
        started_at: "2024-01-01T00:00:00+00:00".to_string(),
        finished_at: "2024-01-01T00:00:00+00:00".to_string(),
    };
    assert_eq!(run_copy_text(&run), "$ ls\n\nstdout:\na\n\nstderr:\nb");
    let (title, domain, body) = run_wiki_page(&run);
    assert_eq!(title, "Command: ls");
    assert_eq!(domain, "commands");
    assert_eq!(body, "Command: `ls`\n\ncwd: `/w`\n\nstdout:\n```\na\n```\n\nstderr:\n```\nb\n```");
    assert_eq!(
        follow_up_prompt(&run),
        "Explain this command result and suggest the next safe command:\na"
    );
}
