//! Display decisions for chat front ends: labels, tones, waiting text and
//! the pending-proposal list.

use vstd::prelude::*;
use crate::settings::{profile_index, AppSettings};
use crate::text::{is_text, owned, to_chars};
use crate::types::{backend_name, ChatRole, CommandProposal, CommandRun, CommandStatus};

verus! {

/// The tone a status is shown in.
#[derive(Clone, Copy, Debug, PartialEq, Eq, Structural)]
pub enum Tone {
    Muted,
    Accent,
    Success,
    Danger,
}

/// Takes the proposal at `index` out of the pending list, when there is one.
pub fn take_proposal(proposals: &mut Vec<CommandProposal>, index: usize) -> (r: Option<
    CommandProposal,
>)
    ensures
        index < old(proposals)@.len() ==> r == Some(old(proposals)@[index as int])
            && final(proposals)@ == old(proposals)@.remove(index as int),
        index >= old(proposals)@.len() ==> r is None && final(proposals)@ == old(proposals)@,
{
    if index < proposals.len() {
        Some(proposals.remove(index))
    } else {
        None
    }
}

/// The short header of a chat message's role.
pub open spec fn role_label_text(role: ChatRole) -> Seq<char> {
    match role {
        ChatRole::System => "System"@,
        ChatRole::User => "You"@,
        ChatRole::Assistant => "CodeSmith"@,
        ChatRole::Tool => "Tool"@,
    }
}

/// The short header of a chat message's role.
pub fn role_label(role: ChatRole) -> (s: &'static str)
    ensures
        s@ == role_label_text(role),
{
    match role {
        ChatRole::System => "System",
        ChatRole::User => "You",
        ChatRole::Assistant => "CodeSmith",
        ChatRole::Tool => "Tool",
    }
}

/// The tone of a run's status: success, danger for a run that failed,
/// timed out or was blocked, accent while running, muted otherwise.
pub open spec fn tone_of(status: CommandStatus) -> Tone {
    match status {
        CommandStatus::Succeeded => Tone::Success,
        CommandStatus::Failed | CommandStatus::TimedOut | CommandStatus::Blocked => Tone::Danger,
        CommandStatus::Running => Tone::Accent,
        _ => Tone::Muted,
    }
}

/// The tone of a run's status.
pub fn status_tone(status: CommandStatus) -> (t: Tone)
    ensures
        t == tone_of(status),
{
    match status {
        CommandStatus::Succeeded => Tone::Success,
        CommandStatus::Failed | CommandStatus::TimedOut | CommandStatus::Blocked => Tone::Danger,
        CommandStatus::Running => Tone::Accent,
        _ => Tone::Muted,
    }
}

/// The text shown while the model is answering: only for the status
/// `Waiting for local LLM`.
pub fn llm_wait_indicator_text(status: &str) -> (r: Option<&'static str>)
    ensures
        status@ == "Waiting for local LLM"@ ==> (r matches Some(t) && t@
            == "CodeSmith is generating a response..."@),
        status@ != "Waiting for local LLM"@ ==> r is None,
{
    let v = to_chars(status);
    if is_text(&v, "Waiting for local LLM") {
        Some("CodeSmith is generating a response...")
    } else {
        None
    }
}

/// The text shown when no proposal waits for approval.
pub fn empty_pending_proposals_text() -> (s: &'static str)
    ensures
        s@ == "No pending approvals. Approved or rejected proposals are recorded under Runs."@,
{
    "No pending approvals. Approved or rejected proposals are recorded under Runs."
}

/// The font files tried, in order, for CJK text.
pub open spec fn cjk_font_paths() -> Seq<Seq<char>> {
    seq![
        "/System/Library/Fonts/AppleSDGothicNeo.ttc"@,
        "/System/Library/Fonts/ヒラギノ角ゴシック W3.ttc"@,
        "/System/Library/Fonts/ヒラギノ角ゴシック W6.ttc"@,
        "/System/Library/Fonts/PingFang.ttc"@,
        "/Library/Fonts/Arial Unicode.ttf"@,
        "C:/Windows/Fonts/malgun.ttf"@,
        "C:/Windows/Fonts/msgothic.ttc"@,
        "/usr/share/fonts/truetype/noto/NotoSansCJK-Regular.ttc"@,
        "/usr/share/fonts/opentype/noto/NotoSansCJK-Regular.ttc"@,
        "/usr/share/fonts/truetype/noto/NotoSansKR-Regular.otf"@,
    ]
}

/// The font files tried, in order, for CJK text.
pub fn cjk_font_candidates() -> (r: Vec<String>)
    ensures
        r@.map_values(|s: String| s@) == cjk_font_paths(),
{
    let mut r: Vec<String> = Vec::new();
    r.push(owned("/System/Library/Fonts/AppleSDGothicNeo.ttc"));
    r.push(owned("/System/Library/Fonts/ヒラギノ角ゴシック W3.ttc"));
    r.push(owned("/System/Library/Fonts/ヒラギノ角ゴシック W6.ttc"));
    r.push(owned("/System/Library/Fonts/PingFang.ttc"));
    r.push(owned("/Library/Fonts/Arial Unicode.ttf"));
    r.push(owned("C:/Windows/Fonts/malgun.ttf"));
    r.push(owned("C:/Windows/Fonts/msgothic.ttc"));
    r.push(owned("/usr/share/fonts/truetype/noto/NotoSansCJK-Regular.ttc"));
    r.push(owned("/usr/share/fonts/opentype/noto/NotoSansCJK-Regular.ttc"));
    r.push(owned("/usr/share/fonts/truetype/noto/NotoSansKR-Regular.otf"));
    assert(r@.map_values(|s: String| s@) =~= cjk_font_paths());
    r
}

/// The backend label of the active profile, or `missing`.
pub fn active_backend_label(settings: &AppSettings) -> (s: &'static str)
    ensures
        match profile_index(settings@.model_profiles, settings@.active_profile) {
            Some(i) => s@ == backend_name(settings@.model_profiles[i].backend_kind),
            None => s@ == "missing"@,
        },
{
    match settings.active_model_profile() {
        Some(p) => p.backend_kind.as_str(),
        None => "missing",
    }
}


/// The text copied for a run: the command, then its output and errors.
pub fn run_copy_text(run: &CommandRun) -> (s: String)
    ensures
        s@ == "$ "@ + run.proposal.command@ + "\n\nstdout:\n"@ + run.stdout@ + "\n\nstderr:\n"@
            + run.stderr@,
{
    let mut s = owned("$ ");
    s.append(run.proposal.command.as_str());
    s.append("\n\nstdout:\n");
    s.append(run.stdout.as_str());
    s.append("\n\nstderr:\n");
    s.append(run.stderr.as_str());
    s
}

/// The wiki page a run is saved as: its title, domain and body.
pub fn run_wiki_page(run: &CommandRun) -> (r: (String, String, String))
    ensures
        r.0@ == "Command: "@ + run.proposal.command@,
        r.1@ == "commands"@,
        r.2@ == "Command: `"@ + run.proposal.command@ + "`\n\ncwd: `"@ + run.proposal.cwd@
            + "`\n\nstdout:\n```\n"@ + run.stdout@ + "\n```\n\nstderr:\n```\n"@ + run.stderr@
            + "\n```"@,
{
    let mut title = owned("Command: ");
    title.append(run.proposal.command.as_str());
    let mut body = owned("Command: `");
    body.append(run.proposal.command.as_str());
    body.append("`\n\ncwd: `");
    body.append(run.proposal.cwd.as_str());
    body.append("`\n\nstdout:\n```\n");
    body.append(run.stdout.as_str());
    body.append("\n```\n\nstderr:\n```\n");
    body.append(run.stderr.as_str());
    body.append("\n```");
    (title, owned("commands"), body)
}

/// The prompt that asks about a run's result.
pub fn follow_up_prompt(run: &CommandRun) -> (s: String)
    ensures
        s@ == "Explain this command result and suggest the next safe command:\n"@ + run.stdout@,
{
    let mut s = owned("Explain this command result and suggest the next safe command:\n");
    s.append(run.stdout.as_str());
    s
}
} // verus!
