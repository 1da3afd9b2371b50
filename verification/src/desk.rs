//! The chat desk: the state behind a windowed front end and how each user
//! action and each finished task changes it. The front end draws the state,
//! performs the work an action asks for, and hands back what came of it.

use vstd::prelude::*;
use crate::agent::{parse_agent_output, reading, AgentOutput};
use crate::cli::resolve_proposal_cwd;
use crate::policy::{evaluate, policy_decision};
use crate::reports::{joined_paragraphs, texts};
use crate::cli::resolved_cwd;
use crate::runs::clone_message;
use crate::settings::AppSettings;
use crate::text::{owned, to_chars, trim, trim_chars, string_of};
use crate::types::{
    clone_proposal, ChatMessage, ChatRole, CommandProposal, CommandRun, CommandStatus, RunnerEvent,
    WikiPage,
};

verus! {

/// The desk: the workspace and time limit runs use, the conversation, the
/// proposals waiting for a decision, the runs, the titles of the wiki pages
/// that matched the last prompt, and the status line.
pub struct Desk {
    pub workspace: String,
    pub timeout_secs: u64,
    pub messages: Vec<ChatMessage>,
    pub proposals: Vec<CommandProposal>,
    pub runs: Vec<CommandRun>,
    pub wiki_hits: Vec<String>,
    pub status: String,
}

impl Desk {
    /// A desk for the settings, with a stored conversation and runs.
    pub fn new(settings: &AppSettings, messages: Vec<ChatMessage>, runs: Vec<CommandRun>) -> (d: Desk)
        ensures
            d.workspace@ == settings.default_workspace@,
            d.timeout_secs == settings.command_timeout_secs,
            d.messages == messages,
            d.proposals@.len() == 0,
            d.runs == runs,
            d.wiki_hits@.len() == 0,
            d.status@ == "Ready"@,
    {
        Desk {
            workspace: settings.default_workspace.clone(),
            timeout_secs: settings.command_timeout_secs,
            messages,
            proposals: Vec::new(),
            runs,
            wiki_hits: Vec::new(),
            status: owned("Ready"),
        }
    }
}

/// One matched page in the wiki context of a prompt.
pub open spec fn hit_block(p: WikiPage) -> Seq<char> {
    "## "@ + p.title@ + "\n"@ + p.body@
}

/// The wiki context for the pages that matched a prompt, when any did.
pub open spec fn hits_context(pages: Seq<WikiPage>) -> Option<Seq<char>> {
    if pages.len() == 0 {
        None
    } else {
        Some("Relevant local wiki pages:\n"@ + joined_paragraphs(pages.map_values(|p: WikiPage| hit_block(p))))
    }
}

/// The wiki context for the pages that matched a prompt.
pub fn wiki_hits_context(pages: &Vec<WikiPage>) -> (r: Option<String>)
    ensures
        r matches Some(s) ==> hits_context(pages@) == Some(s@),
        r is None ==> hits_context(pages@) is None,
{
    if pages.len() == 0 {
        return None;
    }
    let mut blocks: Vec<String> = Vec::new();
    let mut i: usize = 0;
    while i < pages.len()
        invariant
            i <= pages.len(),
            texts(blocks@) == pages@.take(i as int).map_values(|p: WikiPage| hit_block(p)),
        decreases pages.len() - i,
    {
        let mut b = owned("## ");
        b.append(pages[i].title.as_str());
        b.append("\n");
        b.append(pages[i].body.as_str());
        let ghost before = texts(blocks@);
        blocks.push(b);
        assert(texts(blocks@) =~= before.push(hit_block(pages@[i as int])));
        assert(texts(blocks@) =~= pages@.take(i + 1).map_values(|p: WikiPage| hit_block(p)));
        i = i + 1;
    }
    assert(pages@.take(i as int) =~= pages@);
    let mut s = owned("Relevant local wiki pages:\n");
    let mut k: usize = 0;
    let ghost bv = texts(blocks@);
    while k < blocks.len()
        invariant
            k <= blocks.len(),
            bv == texts(blocks@),
            s@ == "Relevant local wiki pages:\n"@ + joined_paragraphs(bv.take(k as int)),
        decreases blocks.len() - k,
    {
        assert(bv.take(k + 1).drop_last() =~= bv.take(k as int));
        assert(bv.take(k + 1).last() == blocks@[k as int]@);
        if k > 0 {
            s.append("\n\n");
        } else {
            assert(bv.take(k + 1) =~= seq![blocks@[0]@]);
        }
        s.append(blocks[k].as_str());
        assert(s@ =~= "Relevant local wiki pages:\n"@ + joined_paragraphs(bv.take(k + 1)));
        k = k + 1;
    }
    assert(bv.take(k as int) =~= bv);
    Some(s)
}

/// The messages sent to the model for the conversation `ms`: the wiki
/// context first as a system message when there is some, then the
/// conversation's roles and contents in order.
pub open spec fn sends(out: Seq<ChatMessage>, ms: Seq<ChatMessage>, context: Option<Seq<char>>) -> bool {
    let off: int = if context is Some { 1 } else { 0 };
    &&& out.len() == ms.len() + off
    &&& context matches Some(c) ==> out[0].role == ChatRole::System && out[0].content@ == c
    &&& forall|k: int|
        0 <= k < ms.len() ==> (#[trigger] out[k + off]).role == ms[k].role && out[k + off].content@
            == ms[k].content@
}

/// Submits a prompt with the wiki pages that matched it: a blank prompt
/// changes nothing; otherwise the trimmed prompt joins the conversation as
/// the user's, the matched titles are kept, the status says the model is
/// awaited, and the messages to send are returned.
pub fn submit_prompt(desk: &mut Desk, prompt: &str, hits: &Vec<WikiPage>) -> (r: Option<Vec<ChatMessage>>)
    ensures
        trim(prompt@).len() == 0 ==> r is None && *final(desk) == *old(desk),
        trim(prompt@).len() > 0 ==> {
            &&& final(desk).messages@.len() == old(desk).messages@.len() + 1
            &&& final(desk).messages@.take(old(desk).messages@.len() as int) == old(desk).messages@
            &&& final(desk).messages@.last().role == ChatRole::User
            &&& final(desk).messages@.last().content@ == trim(prompt@)
            &&& texts(final(desk).wiki_hits@) == hits@.map_values(|p: WikiPage| p.title@)
            &&& final(desk).status@ == "Waiting for local LLM"@
            &&& final(desk).proposals == old(desk).proposals
            &&& final(desk).runs == old(desk).runs
            &&& final(desk).workspace == old(desk).workspace
            &&& final(desk).timeout_secs == old(desk).timeout_secs
            &&& r matches Some(out) && sends(out@, final(desk).messages@, hits_context(hits@))
        },
{
    let t = trim_chars(&to_chars(prompt));
    if t.len() == 0 {
        return None;
    }
    let context = wiki_hits_context(hits);
    let mut titles: Vec<String> = Vec::new();
    let mut i: usize = 0;
    while i < hits.len()
        invariant
            i <= hits.len(),
            texts(titles@) == hits@.take(i as int).map_values(|p: WikiPage| p.title@),
        decreases hits.len() - i,
    {
        let ghost before = texts(titles@);
        titles.push(hits[i].title.clone());
        assert(texts(titles@) =~= before.push(hits@[i as int].title@));
        assert(texts(titles@) =~= hits@.take(i + 1).map_values(|p: WikiPage| p.title@));
        i = i + 1;
    }
    assert(hits@.take(i as int) =~= hits@);
    desk.wiki_hits = titles;
    let message = ChatMessage::new(ChatRole::User, string_of(&t));
    desk.messages.push(message);
    desk.status = owned("Waiting for local LLM");
    let mut out: Vec<ChatMessage> = Vec::new();
    let off: usize = match context {
        Some(c) => {
            out.push(ChatMessage::new(ChatRole::System, c));
            1
        },
        None => 0,
    };
    let mut k: usize = 0;
    while k < desk.messages.len()
        invariant
            k <= desk.messages.len(),
            out@.len() == off + k,
            off == (if hits_context(hits@) is Some { 1usize } else { 0usize }),
            hits_context(hits@) matches Some(c) ==> out@[0].role == ChatRole::System
                && out@[0].content@ == c,
            forall|j: int|
                0 <= j < k ==> (#[trigger] out@[j + off]).role == desk.messages@[j].role
                    && out@[j + off].content@ == desk.messages@[j].content@,
        decreases desk.messages.len() - k,
    {
        out.push(clone_message(&desk.messages[k]));
        k = k + 1;
    }
    Some(out)
}

/// Whether two proposals hold the same values.
pub open spec fn same_proposal(a: CommandProposal, b: CommandProposal) -> bool {
    a.command@ == b.command@ && a.cwd@ == b.cwd@ && a.reason@ == b.reason@ && a.risk_level
        == b.risk_level && a.requires_approval == b.requires_approval
}

/// What approving a pending proposal asks for.
pub enum Approval {
    /// No proposal has that place.
    Nothing,
    /// The policy blocks it; a blocked run records why.
    Blocked,
    /// Run the proposal under the time limit, its run shown under this id.
    Start(CommandProposal, u128, u64),
}

/// Approves the pending proposal at `index`: it leaves the pending list;
/// when the policy blocks it, a blocked run records the reason; otherwise a
/// running run is shown and the proposal is handed out to run.
pub fn approve_command(desk: &mut Desk, index: usize) -> (r: Approval)
    ensures
        index >= old(desk).proposals@.len() ==> r is Nothing && *final(desk) == *old(desk),
        index < old(desk).proposals@.len() ==> {
            let p = old(desk).proposals@[index as int];
            let d = policy_decision(p.command@, p.cwd@, old(desk).workspace@);
            let run = final(desk).runs@.last();
            &&& final(desk).proposals@ == old(desk).proposals@.remove(index as int)
            &&& final(desk).runs@.len() == old(desk).runs@.len() + 1
            &&& final(desk).runs@.take(old(desk).runs@.len() as int) == old(desk).runs@
            &&& run.proposal == p
            &&& run.stdout@.len() == 0
            &&& run.exit_code is None
            &&& final(desk).messages == old(desk).messages
            &&& final(desk).wiki_hits == old(desk).wiki_hits
            &&& final(desk).workspace == old(desk).workspace
            &&& final(desk).timeout_secs == old(desk).timeout_secs
            &&& !d.allowed ==> r is Blocked && run.status == CommandStatus::Blocked && run.stderr@
                == d.reason && final(desk).status == old(desk).status
            &&& d.allowed ==> run.status == CommandStatus::Running && run.stderr@.len() == 0
                && final(desk).status@ == "Running approved command"@ && (r matches Approval::Start(
                q,
                id,
                secs,
            ) && same_proposal(q, p) && id == run.id && secs == old(desk).timeout_secs)
        },
{
    if index >= desk.proposals.len() {
        return Approval::Nothing;
    }
    let proposal = desk.proposals.remove(index);
    let decision = evaluate(&proposal, desk.workspace.as_str());
    if !decision.allowed {
        desk.runs.push(
            CommandRun::new(proposal, CommandStatus::Blocked, String::new(), decision.reason, None),
        );
        return Approval::Blocked;
    }
    let copy = clone_proposal(&proposal);
    let run = CommandRun::new(proposal, CommandStatus::Running, String::new(), String::new(), None);
    let id = run.id;
    desk.runs.push(run);
    desk.status = owned("Running approved command");
    Approval::Start(copy, id, desk.timeout_secs)
}

/// Rejects the pending proposal at `index`: it leaves the pending list and
/// a rejected run records it.
pub fn reject_command(desk: &mut Desk, index: usize)
    ensures
        index >= old(desk).proposals@.len() ==> *final(desk) == *old(desk),
        index < old(desk).proposals@.len() ==> {
            let run = final(desk).runs@.last();
            &&& final(desk).proposals@ == old(desk).proposals@.remove(index as int)
            &&& final(desk).runs@.len() == old(desk).runs@.len() + 1
            &&& final(desk).runs@.take(old(desk).runs@.len() as int) == old(desk).runs@
            &&& run.proposal == old(desk).proposals@[index as int]
            &&& run.status == CommandStatus::Rejected
            &&& run.stdout@.len() == 0 && run.stderr@.len() == 0 && run.exit_code is None
            &&& final(desk).messages == old(desk).messages
            &&& final(desk).status == old(desk).status
        },
{
    if index < desk.proposals.len() {
        let proposal = desk.proposals.remove(index);
        desk.runs.push(
            CommandRun::new(proposal, CommandStatus::Rejected, String::new(), String::new(), None),
        );
    }
}

/// What came back from work the desk handed out.
pub enum DeskEvent {
    /// The model's whole reply.
    AssistantText(String),
    /// Output or the end of a running command, by its run's id.
    CommandStream(u128, RunnerEvent),
    /// The finished run of a command, by the id it was shown under.
    CommandFinished(u128, CommandRun),
    /// A task failed with this message.
    Error(String),
    /// The connection test's result line.
    ConnectionTest(String),
}

/// What the front end stores after an event.
pub enum Persist {
    Nothing,
    Message(ChatMessage),
    Run(CommandRun),
}

/// The first place in `runs` from `i` on whose run has the id, or the end.
pub open spec fn run_place(runs: Seq<CommandRun>, id: u128, i: int) -> int
    decreases runs.len() - i,
{
    if i < 0 || i >= runs.len() {
        runs.len() as int
    } else if runs[i].id == id {
        i
    } else {
        run_place(runs, id, i + 1)
    }
}

proof fn lemma_run_place(runs: Seq<CommandRun>, id: u128, i: int)
    requires
        0 <= i <= runs.len(),
    ensures
        i <= run_place(runs, id, i) <= runs.len(),
        run_place(runs, id, i) < runs.len() ==> runs[run_place(runs, id, i)].id == id,
    decreases runs.len() - i,
{
    if i < runs.len() && runs[i].id != id {
        lemma_run_place(runs, id, i + 1);
    }
}

fn find_run(runs: &Vec<CommandRun>, id: u128) -> (r: usize)
    ensures
        r == run_place(runs@, id, 0),
        r <= runs@.len(),
{
    proof {
        lemma_run_place(runs@, id, 0);
    }
    let mut i: usize = 0;
    while i < runs.len() && runs[i].id != id
        invariant
            i <= runs.len(),
            run_place(runs@, id, 0) == run_place(runs@, id, i as int),
        decreases runs.len() - i,
    {
        i = i + 1;
    }
    i
}

/// A run after one more event of its command: output appended, or the
/// status it finished with.
pub open spec fn streamed(run: CommandRun, ev: RunnerEvent) -> (Seq<char>, Seq<char>, CommandStatus) {
    match ev {
        RunnerEvent::Stdout(c) => (run.stdout@ + c@, run.stderr@, run.status),
        RunnerEvent::Stderr(c) => (run.stdout@, run.stderr@ + c@, run.status),
        RunnerEvent::Finished(s) => (run.stdout@, run.stderr@, s),
    }
}

/// Takes in what came back from handed-out work.
///
/// The model's reply is read as the agent reads it: a proposal, its working
/// directory resolved in the workspace, joins the pending list; plain text
/// joins the conversation as the assistant's and is stored; a blank reply
/// adds nothing. Each leaves the status `Ready`. Command output goes to the
/// first run with its id, and a finished run replaces it (or is added) and
/// is stored, with the status `Command finished`. An error or a connection
/// test result becomes the status.
pub fn apply_event(desk: &mut Desk, event: DeskEvent) -> (p: Persist)
    ensures
        final(desk).workspace == old(desk).workspace,
        final(desk).timeout_secs == old(desk).timeout_secs,
        match event {
            DeskEvent::AssistantText(text) => {
                &&& final(desk).status@ == "Ready"@
                &&& final(desk).runs == old(desk).runs
                &&& match reading(text@) {
                    Err(()) => p is Nothing && final(desk).messages == old(desk).messages
                        && final(desk).proposals == old(desk).proposals,
                    Ok(Some((command, cwd, reason))) => {
                        &&& p is Nothing
                        &&& final(desk).messages == old(desk).messages
                        &&& final(desk).proposals@.len() == old(desk).proposals@.len() + 1
                        &&& final(desk).proposals@.take(old(desk).proposals@.len() as int)
                            == old(desk).proposals@
                        &&& final(desk).proposals@.last().command@ == command
                        &&& final(desk).proposals@.last().cwd@ == resolved_cwd(cwd, old(desk).workspace@)
                        &&& final(desk).proposals@.last().reason@ == reason
                        &&& final(desk).proposals@.last().requires_approval
                    },
                    Ok(None) => {
                        &&& final(desk).proposals == old(desk).proposals
                        &&& final(desk).messages@.len() == old(desk).messages@.len() + 1
                        &&& final(desk).messages@.take(old(desk).messages@.len() as int)
                            == old(desk).messages@
                        &&& final(desk).messages@.last().role == ChatRole::Assistant
                        &&& final(desk).messages@.last().content@ == text@
                        &&& p matches Persist::Message(m) && m.id == final(desk).messages@.last().id
                            && m.role == ChatRole::Assistant && m.content@ == text@
                            && m.timestamp@ == final(desk).messages@.last().timestamp@
                    },
                }
            },
            DeskEvent::CommandStream(id, ev) => {
                let i = run_place(old(desk).runs@, id, 0);
                &&& p is Nothing
                &&& final(desk).status == old(desk).status
                &&& final(desk).messages == old(desk).messages
                &&& final(desk).proposals == old(desk).proposals
                &&& final(desk).runs@.len() == old(desk).runs@.len()
                &&& forall|k: int| 0 <= k < old(desk).runs@.len() && k != i ==> #[trigger] final(desk).runs@[k] == old(desk).runs@[k]
                &&& i < old(desk).runs@.len() ==> {
                    let run = final(desk).runs@[i];
                    let was = old(desk).runs@[i];
                    &&& (run.stdout@, run.stderr@, run.status) == streamed(was, ev)
                    &&& run.id == was.id && run.proposal == was.proposal && run.exit_code == was.exit_code
                }
            },
            DeskEvent::CommandFinished(id, run) => {
                let i = run_place(old(desk).runs@, id, 0);
                &&& p == Persist::Run(run)
                &&& final(desk).status@ == "Command finished"@
                &&& final(desk).messages == old(desk).messages
                &&& final(desk).proposals == old(desk).proposals
                &&& i < old(desk).runs@.len() ==> final(desk).runs@ == old(desk).runs@.update(i, run)
                &&& i == old(desk).runs@.len() ==> final(desk).runs@ == old(desk).runs@.push(run)
            },
            DeskEvent::Error(e) => p is Nothing && final(desk).status == e && final(desk).runs
                == old(desk).runs && final(desk).messages == old(desk).messages
                && final(desk).proposals == old(desk).proposals,
            DeskEvent::ConnectionTest(m) => p is Nothing && final(desk).status == m
                && final(desk).runs == old(desk).runs && final(desk).messages == old(desk).messages
                && final(desk).proposals == old(desk).proposals,
        },
{
    match event {
        DeskEvent::AssistantText(text) => {
            let mut persist = Persist::Nothing;
            match parse_agent_output(text.as_str()) {
                Ok(AgentOutput::Command(proposal)) => {
                    let cwd = resolve_proposal_cwd(proposal.cwd.as_str(), desk.workspace.as_str());
                    let resolved = CommandProposal { cwd, ..proposal };
                    desk.proposals.push(resolved);
                },
                Ok(AgentOutput::Text(t)) => {
                    let message = ChatMessage::new(ChatRole::Assistant, t);
                    let stored = clone_message(&message);
                    desk.messages.push(message);
                    persist = Persist::Message(stored);
                },
                Err(_) => {},
            }
            desk.status = owned("Ready");
            persist
        },
        DeskEvent::CommandStream(id, ev) => {
            let i = find_run(&desk.runs, id);
            if i < desk.runs.len() {
                let mut run = desk.runs.remove(i);
                match ev {
                    RunnerEvent::Stdout(c) => run.stdout.append(c.as_str()),
                    RunnerEvent::Stderr(c) => run.stderr.append(c.as_str()),
                    RunnerEvent::Finished(s) => run.status = s,
                }
                desk.runs.insert(i, run);
            }
            Persist::Nothing
        },
        DeskEvent::CommandFinished(id, run) => {
            let i = find_run(&desk.runs, id);
            let stored = copy_run(&run);
            if i < desk.runs.len() {
                desk.runs.set(i, run);
            } else {
                desk.runs.push(run);
            }
            desk.status = owned("Command finished");
            Persist::Run(stored)
        },
        DeskEvent::Error(e) => {
            desk.status = e;
            Persist::Nothing
        },
        DeskEvent::ConnectionTest(m) => {
            desk.status = m;
            Persist::Nothing
        },
    }
}

/// An exact copy of a run.
pub fn copy_run(run: &CommandRun) -> (r: CommandRun)
    ensures
        r == *run,
{
    CommandRun {
        id: run.id,
        proposal: CommandProposal {
            command: run.proposal.command.clone(),
            cwd: run.proposal.cwd.clone(),
            reason: run.proposal.reason.clone(),
            risk_level: run.proposal.risk_level,
            requires_approval: run.proposal.requires_approval,
        },
        status: run.status,
        stdout: run.stdout.clone(),
        stderr: run.stderr.clone(),
        exit_code: run.exit_code,
        started_at: run.started_at.clone(),
        finished_at: run.finished_at.clone(),
    }
}

} // verus!
