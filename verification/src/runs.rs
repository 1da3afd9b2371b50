//! Proposals and command runs in the front end: previews, the decision to
//! run, run summaries, the `/verify` and `/review` reports, wiki evidence
//! pages and the messages sent to the model.

use vstd::prelude::*;
use crate::cli::{
    approval_hint, approval_hint_text, compact_command, compacted, first_line, first_line_of,
    resolve_proposal_cwd, resolved_cwd,
};
use crate::policy::{evaluate, policy_decision, DecisionView};
use crate::settings::{profile_index, AppSettings};
use crate::text::{decimal, i32_text, owned, signed_decimal, trim, u64_text, is_blank};
use crate::types::{
    clone_proposal, uuid_text, uuid_text_of, ChatMessage, ChatRole, CommandProposal, CommandRun,
    CommandStatus, PolicyDecision, RiskLevel,
};

verus! {

/// The `Debug` name of a run status.
pub open spec fn status_name(s: CommandStatus) -> Seq<char> {
    match s {
        CommandStatus::PendingApproval => "PendingApproval"@,
        CommandStatus::Rejected => "Rejected"@,
        CommandStatus::Running => "Running"@,
        CommandStatus::Succeeded => "Succeeded"@,
        CommandStatus::Failed => "Failed"@,
        CommandStatus::TimedOut => "TimedOut"@,
        CommandStatus::Cancelled => "Cancelled"@,
        CommandStatus::Blocked => "Blocked"@,
    }
}

pub fn status_text(s: CommandStatus) -> (r: &'static str)
    ensures
        r@ == status_name(s),
{
    match s {
        CommandStatus::PendingApproval => "PendingApproval",
        CommandStatus::Rejected => "Rejected",
        CommandStatus::Running => "Running",
        CommandStatus::Succeeded => "Succeeded",
        CommandStatus::Failed => "Failed",
        CommandStatus::TimedOut => "TimedOut",
        CommandStatus::Cancelled => "Cancelled",
        CommandStatus::Blocked => "Blocked",
    }
}

/// The `Debug` name of a risk level.
pub open spec fn risk_name(r: RiskLevel) -> Seq<char> {
    match r {
        RiskLevel::Low => "Low"@,
        RiskLevel::Medium => "Medium"@,
        RiskLevel::High => "High"@,
        RiskLevel::Blocked => "Blocked"@,
    }
}

pub fn risk_text(r: RiskLevel) -> (s: &'static str)
    ensures
        s@ == risk_name(r),
{
    match r {
        RiskLevel::Low => "Low",
        RiskLevel::Medium => "Medium",
        RiskLevel::High => "High",
        RiskLevel::Blocked => "Blocked",
    }
}

/// The `Debug` text of an exit code: `Some(n)` or `None`.
pub open spec fn exit_name(c: Option<i32>) -> Seq<char> {
    match c {
        Some(n) => "Some("@ + signed_decimal(n as int) + ")"@,
        None => "None"@,
    }
}

pub fn exit_text(c: Option<i32>) -> (s: String)
    ensures
        s@ == exit_name(c),
{
    match c {
        Some(n) => {
            let mut s = owned("Some(");
            let d = i32_text(n);
            s.append(d.as_str());
            s.append(")");
            s
        },
        None => owned("None"),
    }
}

/// Statuses that count as failing evidence.
pub open spec fn is_failing(s: CommandStatus) -> bool {
    s == CommandStatus::Failed || s == CommandStatus::TimedOut || s == CommandStatus::Blocked
}

/// A run's output and status, as `format_command_run` writes them.
pub open spec fn run_report(r: CommandRun) -> Seq<char> {
    "status: "@ + status_name(r.status) + "\nexit: "@ + exit_name(r.exit_code) + "\nstdout:\n"@
        + r.stdout@ + "\nstderr:\n"@ + r.stderr@ + "\n"@
}

pub fn format_command_run(run: &CommandRun) -> (s: String)
    ensures
        s@ == run_report(*run),
{
    let mut s = owned("status: ");
    s.append(status_text(run.status));
    s.append("\nexit: ");
    let e = exit_text(run.exit_code);
    s.append(e.as_str());
    s.append("\nstdout:\n");
    s.append(run.stdout.as_str());
    s.append("\nstderr:\n");
    s.append(run.stderr.as_str());
    s.append("\n");
    s
}

/// One `/verify` entry: number, status, exit code and command, then the
/// first lines of any non-blank output.
pub open spec fn evidence_entry(index: nat, r: CommandRun) -> Seq<char> {
    decimal(index + 1) + ". "@ + status_name(r.status) + " exit "@ + exit_name(r.exit_code)
        + " command: "@ + compacted(r.proposal.command@, 80) + "\n"@ + (if trim(r.stdout@).len()
        != 0 {
        "   stdout: "@ + first_line_of(r.stdout@) + "\n"@
    } else {
        seq![]
    }) + (if trim(r.stderr@).len() != 0 {
        "   stderr: "@ + first_line_of(r.stderr@) + "\n"@
    } else {
        seq![]
    })
}

/// The `/verify` entries of the first `n` runs.
pub open spec fn evidence_entries(runs: Seq<CommandRun>, n: nat) -> Seq<char>
    decreases n,
{
    if n == 0 {
        seq![]
    } else {
        evidence_entries(runs, (n - 1) as nat) + evidence_entry((n - 1) as nat, runs[n - 1])
    }
}

/// The conclusion `/verify` draws from the latest run's status.
pub open spec fn verdict(s: CommandStatus) -> Seq<char> {
    match s {
        CommandStatus::Succeeded => "status: verified by latest successful command output\n"@,
        CommandStatus::Failed | CommandStatus::TimedOut | CommandStatus::Blocked =>
            "status: not complete; latest evidence is failing or blocked\n"@
            + "next: inspect stderr/policy reason and run a smaller diagnostic\n"@,
        CommandStatus::Rejected | CommandStatus::PendingApproval | CommandStatus::Running =>
            "status: not verified; command did not complete successfully\n"@,
        CommandStatus::Cancelled => "status: not verified; command was cancelled\n"@,
    }
}

/// The `/verify` report.
pub open spec fn verification_report(runs: Seq<CommandRun>) -> Seq<char> {
    if runs.len() == 0 {
        "Verification\n"@ + "evidence: none\nstatus: not verified\n"@
            + "next: run a safe diagnostic or test command before claiming completion\n"@
    } else {
        "Verification\n"@ + evidence_entries(runs, runs.len()) + verdict(runs.last().status)
    }
}

/// The first line of a `/verify` entry.
pub open spec fn entry_head(index: nat, r: CommandRun) -> Seq<char> {
    decimal(index + 1) + ". "@ + status_name(r.status) + " exit "@ + exit_name(r.exit_code)
        + " command: "@ + compacted(r.proposal.command@, 80) + "\n"@
}

/// An indented first line of some output, when it is not blank.
pub open spec fn output_line(label: Seq<char>, text: Seq<char>) -> Seq<char> {
    if trim(text).len() != 0 {
        label + first_line_of(text) + "\n"@
    } else {
        seq![]
    }
}

fn push_entry_head(out: &mut String, index: usize, r: &CommandRun)
    requires
        index < u64::MAX,
    ensures
        final(out)@ == old(out)@ + entry_head(index as nat, *r),
{
    let n = u64_text(index as u64 + 1);
    out.append(n.as_str());
    out.append(". ");
    out.append(status_text(r.status));
    out.append(" exit ");
    let e = exit_text(r.exit_code);
    out.append(e.as_str());
    out.append(" command: ");
    let c = compact_command(r.proposal.command.as_str(), 80);
    out.append(c.as_str());
    out.append("\n");
}

fn push_output_line(out: &mut String, label: &str, text: &str)
    ensures
        final(out)@ == old(out)@ + output_line(label@, text@),
{
    if !is_blank(text) {
        out.append(label);
        let l = first_line(text);
        out.append(l.as_str());
        out.append("\n");
    } else {
        assert(old(out)@ + output_line(label@, text@) =~= old(out)@);
    }
}

fn push_evidence_entry(out: &mut String, index: usize, r: &CommandRun)
    requires
        index < u64::MAX,
    ensures
        final(out)@ == old(out)@ + evidence_entry(index as nat, *r),
{
    push_entry_head(out, index, r);
    push_output_line(out, "   stdout: ", r.stdout.as_str());
    push_output_line(out, "   stderr: ", r.stderr.as_str());
    assert(evidence_entry(index as nat, *r) =~= entry_head(index as nat, *r) + output_line("   stdout: "@, r.stdout@) + output_line("   stderr: "@, r.stderr@));
}

/// Summarises the command evidence before a completion claim.
pub fn verification_output(runs: &[CommandRun]) -> (out: String)
    ensures
        out@ == verification_report(runs@),
{
    let mut out = owned("Verification\n");
    if runs.len() == 0 {
        out.append("evidence: none\nstatus: not verified\n");
        out.append("next: run a safe diagnostic or test command before claiming completion\n");
        return out;
    }
    let mut i: usize = 0;
    while i < runs.len()
        invariant
            i <= runs@.len(),
            out@ == "Verification\n"@ + evidence_entries(runs@, i as nat),
        decreases runs@.len() - i,
    {
        push_evidence_entry(&mut out, i, &runs[i]);
        i = i + 1;
    }
    let last = &runs[runs.len() - 1];
    match last.status {
        CommandStatus::Succeeded => {
            out.append("status: verified by latest successful command output\n");
        },
        CommandStatus::Failed | CommandStatus::TimedOut | CommandStatus::Blocked => {
            out.append("status: not complete; latest evidence is failing or blocked\n");
            out.append("next: inspect stderr/policy reason and run a smaller diagnostic\n");
        },
        CommandStatus::Rejected | CommandStatus::PendingApproval | CommandStatus::Running => {
            out.append("status: not verified; command did not complete successfully\n");
        },
        CommandStatus::Cancelled => {
            out.append("status: not verified; command was cancelled\n");
        },
    }
    out
}

/// The number of failing runs among the first `n`.
pub open spec fn failing_count(runs: Seq<CommandRun>, n: nat) -> nat
    decreases n,
{
    if n == 0 {
        0
    } else {
        failing_count(runs, (n - 1) as nat) + if is_failing(runs[n - 1].status) {
            1nat
        } else {
            0nat
        }
    }
}

/// The `/review` report.
pub open spec fn review_report(runs: Seq<CommandRun>) -> Seq<char> {
    if runs.len() == 0 {
        "Review\n"@ + "- no command evidence yet\n"@
            + "- risk: completion claims would be unsupported\n"@
    } else {
        let failed = failing_count(runs, runs.len());
        "Review\n"@ + "- command runs reviewed: "@ + decimal(runs.len()) + "\n"@
            + "- failed/blocked evidence: "@ + decimal(failed) + "\n"@ + (if failed > 0 {
            "- next safe diagnostic: read stderr or policy reason before proposing a fix\n"@
        } else {
            "- next safe diagnostic: run the relevant test/check before completion claims\n"@
        })
    }
}

/// Reviews the runs for failing evidence.
pub fn review_output(runs: &[CommandRun]) -> (out: String)
    ensures
        out@ == review_report(runs@),
{
    let mut out = owned("Review\n");
    if runs.len() == 0 {
        out.append("- no command evidence yet\n");
        out.append("- risk: completion claims would be unsupported\n");
        return out;
    }
    let mut failed: usize = 0;
    let mut i: usize = 0;
    while i < runs.len()
        invariant
            i <= runs@.len(),
            failed <= i,
            failed as nat == failing_count(runs@, i as nat),
        decreases runs@.len() - i,
    {
        let s = runs[i].status;
        if s == CommandStatus::Failed || s == CommandStatus::TimedOut || s
            == CommandStatus::Blocked {
            failed = failed + 1;
        }
        i = i + 1;
    }
    out.append("- command runs reviewed: ");
    let n = u64_text(runs.len() as u64);
    out.append(n.as_str());
    out.append("\n");
    out.append("- failed/blocked evidence: ");
    let f = u64_text(failed as u64);
    out.append(f.as_str());
    out.append("\n");
    if failed > 0 {
        out.append(
            "- next safe diagnostic: read stderr or policy reason before proposing a fix\n",
        );
    } else {
        out.append(
            "- next safe diagnostic: run the relevant test/check before completion claims\n",
        );
    }
    out
}


/// The decision for a proposal under settings: the policy's decision for
/// the command in its resolved directory.
pub open spec fn decision_for(p: CommandProposal, workspace: Seq<char>) -> DecisionView {
    policy_decision(p.command@, resolved_cwd(p.cwd@, workspace), workspace)
}

/// The preview of a proposal: its fields, the policy's reason, risk and
/// approval need, then why it is blocked, or else the approval hint when
/// asked for.
pub open spec fn preview_text(p: CommandProposal, workspace: Seq<char>, hint: bool) -> Seq<char> {
    let d = decision_for(p, workspace);
    "Command proposal\ncommand: "@ + p.command@ + "\ncwd: "@ + resolved_cwd(p.cwd@, workspace)
        + "\nreason: "@ + p.reason@ + "\npolicy: "@ + d.reason + "\nrisk: "@ + risk_name(
        d.risk_level,
    ) + "\napproval: "@ + (if d.requires_approval {
        "required"@
    } else {
        "not required"@
    }) + "\n"@ + (if !d.allowed {
        "blocked: "@ + d.reason + "\n"@
    } else if hint {
        approval_hint_text() + "\n"@
    } else {
        seq![]
    })
}

/// The proposal with its directory resolved, and the policy's decision.
pub fn policy_decision_for_proposal(proposal: CommandProposal, settings: &AppSettings) -> (r: (
    CommandProposal,
    PolicyDecision,
))
    ensures
        r.0.command@ == proposal.command@,
        r.0.cwd@ == resolved_cwd(proposal.cwd@, settings.default_workspace@),
        r.0.reason@ == proposal.reason@,
        r.0.risk_level == proposal.risk_level,
        r.0.requires_approval == proposal.requires_approval,
        r.1@ == decision_for(proposal, settings.default_workspace@),
{
    let mut proposal = proposal;
    proposal.cwd = resolve_proposal_cwd(proposal.cwd.as_str(), settings.default_workspace.as_str());
    let decision = evaluate(&proposal, settings.default_workspace.as_str());
    (proposal, decision)
}

fn push_preview_head(out: &mut String, p: &CommandProposal, d: &PolicyDecision)
    ensures
        final(out)@ == old(out)@ + "Command proposal\ncommand: "@ + p.command@ + "\ncwd: "@ + p.cwd@
            + "\nreason: "@ + p.reason@ + "\npolicy: "@ + d.reason@ + "\nrisk: "@ + risk_name(
            d.risk_level,
        ) + "\napproval: "@ + (if d.requires_approval {
            "required"@
        } else {
            "not required"@
        }) + "\n"@,
{
    out.append("Command proposal\ncommand: ");
    out.append(p.command.as_str());
    out.append("\ncwd: ");
    out.append(p.cwd.as_str());
    out.append("\nreason: ");
    out.append(p.reason.as_str());
    out.append("\npolicy: ");
    out.append(d.reason.as_str());
    out.append("\nrisk: ");
    out.append(risk_text(d.risk_level));
    out.append("\napproval: ");
    if d.requires_approval {
        out.append("required");
    } else {
        out.append("not required");
    }
    out.append("\n");
}

/// Shows a proposal with the policy's verdict on it.
pub fn preview_proposal(proposal: CommandProposal, settings: &AppSettings, include_approval_hint: bool) -> (out: String)
    ensures
        out@ == preview_text(proposal, settings.default_workspace@, include_approval_hint),
{
    let ghost p0 = proposal;
    let (p, decision) = policy_decision_for_proposal(proposal, settings);
    let mut out = String::new();
    push_preview_head(&mut out, &p, &decision);
    if !decision.allowed {
        out.append("blocked: ");
        out.append(decision.reason.as_str());
        out.append("\n");
    } else if include_approval_hint {
        out.append(approval_hint());
        out.append("\n");
    }
    assert(out@ =~= preview_text(p0, settings.default_workspace@, include_approval_hint));
    out
}

/// What to do with a proposal: show its preview only, or show it and run
/// the resolved proposal.
pub enum ProposalStep {
    Preview(String),
    Run(CommandProposal, String),
}

/// Decides what to do with a proposal: it runs only when the policy allows
/// it and the user approved it (`yes`); the preview carries the approval
/// hint when the user has not approved.
pub fn plan_proposal(proposal: CommandProposal, settings: &AppSettings, yes: bool) -> (r: ProposalStep)
    ensures
        match r {
            ProposalStep::Preview(text) => text@ == preview_text(proposal, settings.default_workspace@, !yes)
                && !(yes && decision_for(proposal, settings.default_workspace@).allowed),
            ProposalStep::Run(p, text) => text@ == preview_text(proposal, settings.default_workspace@, !yes)
                && yes && decision_for(proposal, settings.default_workspace@).allowed
                && p.command@ == proposal.command@ && p.cwd@ == resolved_cwd(proposal.cwd@, settings.default_workspace@),
        },
{
    let ghost p0 = proposal;
    let preview = preview_proposal(clone_proposal(&proposal), settings, !yes);
    let (p, decision) = policy_decision_for_proposal(proposal, settings);
    if !decision.allowed {
        return ProposalStep::Preview(preview);
    }
    if !yes {
        return ProposalStep::Preview(preview);
    }
    ProposalStep::Run(p, preview)
}

/// What running an approved proposal comes to: a blocked run that records
/// the policy's reason, or the resolved proposal to execute with a timeout
/// of at least one second.
pub enum RunPlan {
    Blocked(CommandRun),
    Execute(CommandProposal, u64),
}

/// Decides how an approved proposal runs.
pub fn plan_run(proposal: CommandProposal, settings: &AppSettings) -> (r: RunPlan)
    ensures
        match r {
            RunPlan::Blocked(run) => !decision_for(proposal, settings.default_workspace@).allowed
                && run.status == CommandStatus::Blocked && run.stdout@.len() == 0
                && run.stderr@ == decision_for(proposal, settings.default_workspace@).reason
                && run.exit_code is None && run.proposal.command@ == proposal.command@
                && run.proposal.cwd@ == resolved_cwd(proposal.cwd@, settings.default_workspace@),
            RunPlan::Execute(p, secs) => decision_for(proposal, settings.default_workspace@).allowed
                && p.command@ == proposal.command@
                && p.cwd@ == resolved_cwd(proposal.cwd@, settings.default_workspace@)
                && secs == if settings.command_timeout_secs >= 1 {
                settings.command_timeout_secs
            } else {
                1
            },
        },
{
    let (p, decision) = policy_decision_for_proposal(proposal, settings);
    if !decision.allowed {
        return RunPlan::Blocked(
            CommandRun::new(p, CommandStatus::Blocked, String::new(), decision.reason, None),
        );
    }
    let secs = if settings.command_timeout_secs >= 1 {
        settings.command_timeout_secs
    } else {
        1
    };
    RunPlan::Execute(p, secs)
}


/// The wiki domain a run's evidence is filed under.
pub open spec fn evidence_domain(s: CommandStatus) -> Seq<char> {
    match s {
        CommandStatus::Succeeded => "command"@,
        CommandStatus::Failed | CommandStatus::TimedOut | CommandStatus::Blocked => "debugging"@,
        _ => "verification"@,
    }
}

/// The title of a run's evidence page.
pub open spec fn evidence_title(r: CommandRun) -> Seq<char> {
    "Command run: "@ + status_name(r.status) + " "@ + compacted(r.proposal.command@, 80) + " ("@
        + uuid_text_of(r.id) + ")"@
}

/// The body of a run's evidence page.
pub open spec fn evidence_body(r: CommandRun, note: Seq<char>) -> Seq<char> {
    "Command: `"@ + r.proposal.command@ + "`\n\nCwd: `"@ + r.proposal.cwd@ + "`\n\nStatus: `"@
        + status_name(r.status) + "`\n\nExit: `"@ + exit_name(r.exit_code)
        + "`\n\nRoot cause note: "@ + note + "\n\nStdout:\n```text\n"@ + r.stdout@
        + "\n```\n\nStderr:\n```text\n"@ + r.stderr@ + "\n```"@
}

fn evidence_domain_text(s: CommandStatus) -> (d: &'static str)
    ensures
        d@ == evidence_domain(s),
{
    match s {
        CommandStatus::Succeeded => "command",
        CommandStatus::Failed | CommandStatus::TimedOut | CommandStatus::Blocked => "debugging",
        _ => "verification",
    }
}

/// The wiki page that records a run: its title, domain and body.
pub fn command_run_evidence(run: &CommandRun, root_cause_note: &str) -> (r: (String, &'static str, String))
    ensures
        r.0@ == evidence_title(*run),
        r.1@ == evidence_domain(run.status),
        r.2@ == evidence_body(*run, root_cause_note@),
{
    let mut title = owned("Command run: ");
    title.append(status_text(run.status));
    title.append(" ");
    let c = compact_command(run.proposal.command.as_str(), 80);
    title.append(c.as_str());
    title.append(" (");
    let id = uuid_text(run.id);
    title.append(id.as_str());
    title.append(")");
    let mut body = owned("Command: `");
    body.append(run.proposal.command.as_str());
    body.append("`\n\nCwd: `");
    body.append(run.proposal.cwd.as_str());
    body.append("`\n\nStatus: `");
    body.append(status_text(run.status));
    body.append("`\n\nExit: `");
    let e = exit_text(run.exit_code);
    body.append(e.as_str());
    body.append("`\n\nRoot cause note: ");
    body.append(root_cause_note);
    body.append("\n\nStdout:\n```text\n");
    body.append(run.stdout.as_str());
    body.append("\n```\n\nStderr:\n```text\n");
    body.append(run.stderr.as_str());
    body.append("\n```");
    (title, evidence_domain_text(run.status), body)
}

/// The system message that carries wiki context, unless the context is blank.
pub open spec fn wiki_context_text(context: Seq<char>) -> Option<Seq<char>> {
    if trim(context).len() == 0 {
        None
    } else {
        Some("Relevant local wiki context:\n"@ + context)
    }
}

pub fn wiki_context_message(context: &str) -> (r: Option<String>)
    ensures
        r matches Some(m) ==> wiki_context_text(context@) == Some(m@),
        r is None ==> wiki_context_text(context@) is None,
{
    if is_blank(context) {
        return None;
    }
    let mut m = owned("Relevant local wiki context:\n");
    m.append(context);
    Some(m)
}

/// A copy of a list of proposals.
pub fn clone_proposals(ps: &Vec<CommandProposal>) -> (r: Vec<CommandProposal>)
    ensures
        r@.len() == ps@.len(),
        forall|k: int| 0 <= k < ps@.len() ==> (#[trigger] r@[k]).command@ == ps@[k].command@
            && r@[k].cwd@ == ps@[k].cwd@ && r@[k].reason@ == ps@[k].reason@,
{
    let mut r: Vec<CommandProposal> = Vec::new();
    let mut i: usize = 0;
    while i < ps.len()
        invariant
            i <= ps.len(),
            r@.len() == i,
            forall|k: int| 0 <= k < i ==> (#[trigger] r@[k]).command@ == ps@[k].command@
                && r@[k].cwd@ == ps@[k].cwd@ && r@[k].reason@ == ps@[k].reason@,
        decreases ps.len() - i,
    {
        r.push(clone_proposal(&ps[i]));
        i = i + 1;
    }
    r
}

/// A copy of a message.
pub fn clone_message(m: &ChatMessage) -> (r: ChatMessage)
    ensures
        r.id == m.id,
        r.role == m.role,
        r.content@ == m.content@,
        r.timestamp@ == m.timestamp@,
        r.tool_calls@.len() == m.tool_calls@.len(),
{
    ChatMessage {
        id: m.id,
        role: m.role,
        content: m.content.clone(),
        timestamp: m.timestamp.clone(),
        tool_calls: clone_proposals(&m.tool_calls),
    }
}

/// The messages sent to the model: the active profile's system prompt when
/// there is an active profile, the wiki context when there is some, the
/// history, then the prompt as a user message.
pub fn build_conversation_messages(
    prompt: &str,
    history: &[ChatMessage],
    settings: &AppSettings,
    wiki_context: Option<String>,
) -> (r: Vec<ChatMessage>)
    ensures
        ({
            let has_profile = profile_index(settings@.model_profiles, settings@.active_profile) is Some;
            let head: int = (if has_profile { 1int } else { 0int }) + (if wiki_context is Some { 1int } else { 0int });
            &&& r@.len() == head + history@.len() + 1
            &&& has_profile ==> r@[0].role == ChatRole::System && r@[0].content@
                == settings@.model_profiles[profile_index(settings@.model_profiles, settings@.active_profile)->0].system_prompt
            &&& wiki_context matches Some(c) ==> r@[head - 1].role == ChatRole::System && r@[head - 1].content@ == c@
            &&& forall|k: int| 0 <= k < history@.len() ==> (#[trigger] r@[head + k]).content@ == history@[k].content@
                && r@[head + k].role == history@[k].role && r@[head + k].id == history@[k].id
            &&& r@[r@.len() - 1].role == ChatRole::User
            &&& r@[r@.len() - 1].content@ == prompt@
        }),
{
    let mut messages: Vec<ChatMessage> = Vec::new();
    if let Some(profile) = settings.active_model_profile() {
        messages.push(ChatMessage::new(ChatRole::System, profile.system_prompt.clone()));
    }
    if let Some(context) = wiki_context {
        messages.push(ChatMessage::new(ChatRole::System, context));
    }
    let head = messages.len();
    let ghost pre = messages@;
    let mut i: usize = 0;
    while i < history.len()
        invariant
            i <= history@.len(),
            messages@.len() == head + i,
            forall|k: int| 0 <= k < head ==> #[trigger] messages@[k] == pre[k],
            forall|k: int| 0 <= k < i ==> (#[trigger] messages@[head + k]).content@ == history@[k].content@
                && messages@[head + k].role == history@[k].role && messages@[head + k].id == history@[k].id,
        decreases history@.len() - i,
    {
        messages.push(clone_message(&history[i]));
        i = i + 1;
    }
    messages.push(ChatMessage::new(ChatRole::User, owned(prompt)));
    messages
}

} // verus!
