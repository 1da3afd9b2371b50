use codesmith::context::query_context;
use codesmith::runs::{
    build_conversation_messages, command_run_evidence, format_command_run, plan_proposal,
    plan_run, review_output, verification_output, wiki_context_message, ProposalStep, RunPlan,
};
use codesmith::search::{search_pages, sort_pages_by_title};
use codesmith::settings::AppSettings;
use codesmith::types::{
    ChatMessage, ChatRole, CommandProposal, CommandRun, CommandStatus, ModelProfile, WikiPage,
};
use codesmith::wiki::{new_page, parse_page, render_page};

fn settings() -> AppSettings {
    let mut settings = AppSettings::with_workspace("/Users/gim-yonghyeon/CodeSmith".to_string());
    settings.llm_base_url = "http://localhost:11434/v1".to_string();
    settings.llm_model = "local".to_string();
    settings.api_key = None;
    settings.command_timeout_secs = 5;
    settings.model_profiles = vec![ModelProfile::from_legacy(
        "default",
        settings.llm_base_url.clone(),
        settings.llm_model.clone(),
        settings.api_key.clone(),
    )];
    settings.ensure_model_profiles();
    settings
}

/// A wiki folder in memory: its index text and its page files.
struct Wiki {
    index: String,
    files: Vec<String>,
}

impl Wiki {
    fn open() -> Self {
        Wiki {
            index: "# CodeSmith Wiki Index\n\nNo sources ingested yet.\n".to_string(),
            files: Vec::new(),
        }
    }

    fn save_page(&mut self, title: &str, domain: &str, body: &str) {
        self.files.push(render_page(&new_page(title, domain, body)));
    }

    fn pages(&self) -> Vec<WikiPage> {
        sort_pages_by_title(self.files.iter().map(|raw| parse_page(raw).unwrap()).collect())
    }
}

fn build_prompt_messages(prompt: &str, settings: &AppSettings, wiki: Option<&Wiki>) -> Vec<ChatMessage> {
    let context = wiki
        .and_then(|wiki| query_context(&wiki.index, &wiki.pages(), prompt, 4000))
        .and_then(|context| wiki_context_message(&context));
    build_conversation_messages(prompt, &[], settings, context)
}

fn failed_run() -> CommandRun {
    CommandRun::new(
        CommandProposal::new("python3 broken.py", "/Users/gim-yonghyeon/CodeSmith", "test stderr"),
        CommandStatus::Failed,
        String::new(),
        "SyntaxError: invalid syntax".to_string(),
        Some(1),
    )
}

#[test]
fn prompt_messages_include_matching_wiki_context_before_user_prompt() {
    let mut wiki = Wiki::open();
    wiki.save_page("Command: printf cli-ok", "commands", "stdout cli-ok");

    let settings = settings();
    let messages = build_prompt_messages("cli-ok", &settings, Some(&wiki));

    assert_eq!(messages.len(), 3);
    assert_eq!(messages[0].role, ChatRole::System);
    assert!(messages[0].content.contains("execution-only"));
    assert_eq!(messages[1].role, ChatRole::System);
    assert!(messages[1].content.contains("Command: printf cli-ok"));
    assert_eq!(messages[2].role, ChatRole::User);
    assert_eq!(messages[2].content, "cli-ok");
}

#[test]
fn prompt_messages_include_index_even_without_page_matches() {
    let mut wiki = Wiki::open();
    wiki.save_page("Command: printf cli-ok", "commands", "stdout cli-ok");

    let settings = settings();
    let messages = build_prompt_messages("unmatched", &settings, Some(&wiki));

    assert_eq!(messages.len(), 3);
    assert_eq!(messages[0].role, ChatRole::System);
    assert!(messages[0].content.contains("execution-only"));
    assert_eq!(messages[1].role, ChatRole::System);
    assert!(messages[1].content.contains("Relevant local wiki context"));
    assert!(messages[1].content.contains("# CodeSmith Wiki Index"));
    assert_eq!(messages[2].role, ChatRole::User);
    assert_eq!(messages[2].content, "unmatched");
}

#[test]
fn conversation_messages_include_history_before_current_prompt() {
    let history = vec![
        ChatMessage::new(ChatRole::User, "first".to_string()),
        ChatMessage::new(ChatRole::Assistant, "second".to_string()),
    ];

    let settings = settings();
    let messages = build_conversation_messages("third", &history, &settings, None);

    assert_eq!(messages.len(), 4);
    assert!(messages[0].content.contains("execution-only"));
    assert_eq!(messages[1].content, "first");
    assert_eq!(messages[2].content, "second");
    assert_eq!(messages[3].content, "third");
}

#[test]
fn default_prompt_contains_superpowers_workflow_policy() {
    let messages = build_conversation_messages("debug this", &[], &settings(), None);

    let system = &messages[0].content;
    assert!(system.contains("intent before action"));
    assert!(system.contains("systematic debugging"));
    assert!(system.contains("verify before declaring success"));
}

#[test]
fn verification_and_review_output_use_command_run_evidence() {
    let failed = failed_run();
    let verified = verification_output(std::slice::from_ref(&failed));
    let reviewed = review_output(&[failed]);

    assert!(verified.contains("SyntaxError"));
    assert!(verified.contains("not complete"));
    assert!(reviewed.contains("failed/blocked evidence: 1"));
    assert!(reviewed.contains("read stderr"));
}

#[test]
fn command_run_evidence_is_saved_as_debugging_wiki_page() {
    let mut wiki = Wiki::open();
    let failed = failed_run();

    let (title, domain, body) = command_run_evidence(&failed, "stderr shows invalid syntax");
    wiki.save_page(&title, domain, &body);
    let pages = search_pages(&wiki.pages(), "SyntaxError", 5);

    assert_eq!(pages.len(), 1);
    assert_eq!(pages[0].domain, "debugging");
    assert!(pages[0].body.contains("stderr shows invalid syntax"));
}

#[test]
fn proposals_run_only_when_allowed_and_approved() {
    let s = settings();
    let safe = CommandProposal::new("echo hello", ".", "greet");
    match plan_proposal(safe.clone(), &s, false) {
        ProposalStep::Preview(text) => {
            assert!(text.contains("approval: required"));
            assert!(text.contains("approval required: rerun with --yes"));
        }
        ProposalStep::Run(..) => panic!("must not run without --yes"),
    }
    match plan_proposal(safe, &s, true) {
        ProposalStep::Run(p, text) => {
            assert_eq!(p.cwd, "/Users/gim-yonghyeon/CodeSmith/.");
            assert!(!text.contains("rerun with --yes"));
        }
        ProposalStep::Preview(_) => panic!("allowed and approved proposal should run"),
    }
    let blocked = CommandProposal::new("rm -rf /", ".", "wipe");
    match plan_proposal(blocked, &s, true) {
        ProposalStep::Preview(text) => assert!(text.contains("blocked: ")),
        ProposalStep::Run(..) => panic!("blocked proposal must never run"),
    }
}

#[test]
fn runs_get_at_least_one_second_and_blocked_runs_record_the_reason() {
    let mut s = settings();
    s.command_timeout_secs = 0;
    match plan_run(CommandProposal::new("ls", ".", "list"), &s) {
        RunPlan::Execute(_, secs) => assert_eq!(secs, 1),
        RunPlan::Blocked(_) => panic!("ls is allowed"),
    }
    match plan_run(CommandProposal::new("sudo ls", ".", "list"), &s) {
        RunPlan::Blocked(run) => {
            assert_eq!(run.status, CommandStatus::Blocked);
            assert!(!run.stderr.is_empty());
        }
        RunPlan::Execute(..) => panic!("sudo is blocked"),
    }
}

#[test]
fn run_reports_show_status_exit_and_streams() {
    let run = failed_run();
    assert_eq!(
        format_command_run(&run),
        "status: Failed\nexit: Some(1)\nstdout:\n\nstderr:\nSyntaxError: invalid syntax\n"
    );
}
