use codesmith::desk::{
    apply_event, approve_command, reject_command, submit_prompt, wiki_hits_context, Approval,
    Desk, DeskEvent, Persist,
};
use codesmith::settings::AppSettings;
use codesmith::types::{
    ChatRole, CommandProposal, CommandRun, CommandStatus, RunnerEvent, WikiPage, WikiStatus,
};

fn desk() -> Desk {
    let settings = AppSettings::with_workspace("/w".to_string());
    Desk::new(&settings, Vec::new(), Vec::new())
}

fn page(title: &str, body: &str) -> WikiPage {
    WikiPage {
        id: 1,
        title: title.to_string(),
        domain: "source".to_string(),
        source_count: 1,
        confidence: "1".to_string(),
        status: WikiStatus::Active,
        body: body.to_string(),
    }
}

#[test]
fn submitting_a_prompt_sends_wiki_context_first() {
    let mut d = desk();
    assert!(submit_prompt(&mut d, "   ", &vec![]).is_none());
    assert!(d.messages.is_empty());

    let hits = vec![page("A", "alpha"), page("B", "beta")];
    let sent = submit_prompt(&mut d, "  explain  ", &hits).unwrap();

    assert_eq!(d.status, "Waiting for local LLM");
    assert_eq!(d.wiki_hits, vec!["A".to_string(), "B".to_string()]);
    assert_eq!(d.messages.len(), 1);
    assert_eq!(d.messages[0].content, "explain");
    assert_eq!(sent.len(), 2);
    assert_eq!(sent[0].role, ChatRole::System);
    assert_eq!(sent[0].content, "Relevant local wiki pages:\n## A\nalpha\n\n## B\nbeta");
    assert_eq!(sent[1].content, "explain");
    assert_eq!(wiki_hits_context(&vec![]), None);
}

#[test]
fn replies_become_proposals_or_messages() {
    let mut d = desk();
    let p = apply_event(
        &mut d,
        DeskEvent::AssistantText(r#"{"command":"ls","cwd":"src","reason":"look"}"#.to_string()),
    );
    assert!(matches!(p, Persist::Nothing));
    assert_eq!(d.proposals.len(), 1);
    assert_eq!(d.proposals[0].cwd, "/w/src");
    assert_eq!(d.status, "Ready");

    let p = apply_event(&mut d, DeskEvent::AssistantText("just text".to_string()));
    match p {
        Persist::Message(m) => assert_eq!(m.content, "just text"),
        _ => panic!("text replies are stored"),
    }
    assert_eq!(d.messages.last().unwrap().role, ChatRole::Assistant);
    apply_event(&mut d, DeskEvent::Error("boom".to_string()));
    assert_eq!(d.status, "boom");
}

#[test]
fn approving_runs_only_what_the_policy_allows() {
    let mut d = desk();
    d.proposals.push(CommandProposal::new("rm -rf /", "/w", "wipe"));
    d.proposals.push(CommandProposal::new("ls", "/w", "look"));

    assert!(matches!(approve_command(&mut d, 0), Approval::Blocked));
    assert_eq!(d.runs[0].status, CommandStatus::Blocked);
    assert_eq!(
        d.runs[0].stderr,
        "command matches destructive, privileged, credential, or exfiltration pattern"
    );
    match approve_command(&mut d, 0) {
        Approval::Start(p, id, secs) => {
            assert_eq!(p.command, "ls");
            assert_eq!(id, d.runs[1].id);
            assert_eq!(secs, 120);
        }
        _ => panic!("ls is allowed"),
    }
    assert_eq!(d.runs[1].status, CommandStatus::Running);
    assert_eq!(d.status, "Running approved command");
    assert!(matches!(approve_command(&mut d, 0), Approval::Nothing));
}

#[test]
fn command_output_streams_into_its_run() {
    let mut d = desk();
    d.proposals.push(CommandProposal::new("echo hi", "/w", "t"));
    let id = match approve_command(&mut d, 0) {
        Approval::Start(_, id, _) => id,
        _ => panic!("allowed"),
    };
    apply_event(&mut d, DeskEvent::CommandStream(id, RunnerEvent::Stdout("hi".to_string())));
    apply_event(&mut d, DeskEvent::CommandStream(id, RunnerEvent::Stdout("!".to_string())));
    apply_event(&mut d, DeskEvent::CommandStream(id, RunnerEvent::Finished(CommandStatus::Succeeded)));
    assert_eq!(d.runs[0].stdout, "hi!");
    assert_eq!(d.runs[0].status, CommandStatus::Succeeded);

    let mut done = CommandRun::new(
        CommandProposal::new("echo hi", "/w", "t"),
        CommandStatus::Succeeded,
        "hi\n".to_string(),
        String::new(),
        Some(0),
    );
    done.id = id;
    match apply_event(&mut d, DeskEvent::CommandFinished(id, done)) {
        Persist::Run(r) => assert_eq!(r.id, id),
        _ => panic!("finished runs are stored"),
    }
    assert_eq!(d.runs.len(), 1);
    assert_eq!(d.runs[0].stdout, "hi\n");
    assert_eq!(d.status, "Command finished");
}

#[test]
fn rejecting_records_a_rejected_run() {
    let mut d = desk();
    d.proposals.push(CommandProposal::new("ls", "/w", "look"));
    reject_command(&mut d, 5);
    assert_eq!(d.proposals.len(), 1);
    reject_command(&mut d, 0);
    assert!(d.proposals.is_empty());
    assert_eq!(d.runs[0].status, CommandStatus::Rejected);
}
