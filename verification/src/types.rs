//! The shared data of the agent: model profiles and settings, chat messages,
//! command proposals and runs, policy decisions and wiki records.
//!
//! Identifiers are held as the 128-bit value of a UUID and timestamps as RFC
//! 3339 text; paths are held as text.

use vstd::prelude::*;
use crate::text::{
    contains, has_char, hex_fixed, hex_fixed_chars, lemma_hex_fixed_injective, pow16, is_blank, is_hex_digit, lemma_hex_fixed_digits,
    lemma_no_char_concat, lemma_no_dash_run, lemma_no_dash_run_concat, opt_view, owned, push_chars,
    trim,
};

verus! {

/// The kind of OpenAI-compatible server behind a model profile.
#[derive(Clone, Copy, Debug, PartialEq, Eq, Structural)]
pub enum BackendKind {
    Ollama,
    Vllm,
    Litellm,
    OpenAiCompatible,
}

/// The configuration name of a backend kind.
pub open spec fn backend_name(k: BackendKind) -> Seq<char> {
    match k {
        BackendKind::Ollama => "ollama"@,
        BackendKind::Vllm => "vllm"@,
        BackendKind::Litellm => "litellm"@,
        BackendKind::OpenAiCompatible => "openai_compatible"@,
    }
}

impl BackendKind {
    pub fn as_str(self) -> (s: &'static str)
        ensures
            s@ == backend_name(self),
    {
        match self {
            BackendKind::Ollama => "ollama",
            BackendKind::Vllm => "vllm",
            BackendKind::Litellm => "litellm",
            BackendKind::OpenAiCompatible => "openai_compatible",
        }
    }
}

/// A model profile as plain values.
pub struct ProfileView {
    pub id: Seq<char>,
    pub name: Seq<char>,
    pub backend_kind: BackendKind,
    pub base_url: Seq<char>,
    pub model: Seq<char>,
    pub api_key: Option<Seq<char>>,
    pub system_prompt: Seq<char>,
    pub temperature: Option<Seq<char>>,
    pub context_hint: Option<Seq<char>>,
}

/// One local model endpoint. The sampling temperature is held as the decimal
/// text of the configured value.
#[derive(Clone, Debug, PartialEq)]
pub struct ModelProfile {
    pub id: String,
    pub name: String,
    pub backend_kind: BackendKind,
    pub base_url: String,
    pub model: String,
    pub api_key: Option<String>,
    pub system_prompt: String,
    pub temperature: Option<String>,
    pub context_hint: Option<String>,
}

impl View for ModelProfile {
    type V = ProfileView;

    open spec fn view(&self) -> ProfileView {
        ProfileView {
            id: self.id@,
            name: self.name@,
            backend_kind: self.backend_kind,
            base_url: self.base_url@,
            model: self.model@,
            api_key: opt_view(self.api_key),
            system_prompt: self.system_prompt@,
            temperature: opt_view(self.temperature),
            context_hint: opt_view(self.context_hint),
        }
    }
}

/// The system prompt that every profile starts from.
pub open spec fn default_prompt_text() -> Seq<char> {
    "You are CodeSmith, a local execution-only coding agent. Explain clearly, prefer safe read-only diagnostics, and never claim a command has run unless tool output proves it. Work with intent before action, use systematic debugging instead of guessing, and verify before declaring success. When proposing a shell command, return strict JSON only with command, cwd, and reason fields. Do not wrap command proposal JSON in Markdown fences. Commands require explicit user approval before execution."@
}

/// The default system prompt.
pub fn default_system_prompt() -> (s: String)
    ensures
        s@ == default_prompt_text(),
{
    owned(
        "You are CodeSmith, a local execution-only coding agent. Explain clearly, prefer safe read-only diagnostics, and never claim a command has run unless tool output proves it. Work with intent before action, use systematic debugging instead of guessing, and verify before declaring success. When proposing a shell command, return strict JSON only with command, cwd, and reason fields. Do not wrap command proposal JSON in Markdown fences. Commands require explicit user approval before execution.",
    )
}

/// The model name used when none is configured.
pub open spec fn default_model_name() -> Seq<char> {
    "qwen2.5-coder:7b"@
}

/// The profile that `ModelProfile::default_local` builds.
pub open spec fn default_local_profile() -> ProfileView {
    ProfileView {
        id: "default"@,
        name: "Default local model"@,
        backend_kind: BackendKind::Ollama,
        base_url: "http://localhost:11434/v1"@,
        model: default_model_name(),
        api_key: None,
        system_prompt: default_prompt_text(),
        temperature: None,
        context_hint: Some("Default Ollama-compatible local profile"@),
    }
}

/// The profile that `ModelProfile::from_legacy` builds from legacy settings.
pub open spec fn legacy_profile(
    id: Seq<char>,
    base_url: Seq<char>,
    model: Seq<char>,
    api_key: Option<Seq<char>>,
) -> ProfileView {
    let model = if trim(model).len() == 0 {
        default_model_name()
    } else {
        model
    };
    ProfileView {
        id: id,
        name: "Local "@ + model,
        backend_kind: BackendKind::Ollama,
        base_url: base_url,
        model: model,
        api_key: api_key,
        system_prompt: default_prompt_text(),
        temperature: None,
        context_hint: Some("Migrated from legacy settings"@),
    }
}

impl ModelProfile {
    /// The default local Ollama profile.
    pub fn default_local() -> (p: Self)
        ensures
            p@ == default_local_profile(),
    {
        ModelProfile {
            id: owned("default"),
            name: owned("Default local model"),
            backend_kind: BackendKind::Ollama,
            base_url: owned("http://localhost:11434/v1"),
            model: owned("qwen2.5-coder:7b"),
            api_key: None,
            system_prompt: default_system_prompt(),
            temperature: None,
            context_hint: Some(owned("Default Ollama-compatible local profile")),
        }
    }

    /// A profile built from the single-model settings of older versions; a
    /// blank model name becomes the default model.
    pub fn from_legacy(id: &str, base_url: String, model: String, api_key: Option<String>) -> (p:
        Self)
        ensures
            p@ == legacy_profile(id@, base_url@, model@, opt_view(api_key)),
    {
        let model = if is_blank(model.as_str()) {
            owned("qwen2.5-coder:7b")
        } else {
            model
        };
        let mut name = owned("Local ");
        name.append(model.as_str());
        ModelProfile {
            id: owned(id),
            name: name,
            backend_kind: BackendKind::Ollama,
            base_url: base_url,
            model: model,
            api_key: api_key,
            system_prompt: default_system_prompt(),
            temperature: None,
            context_hint: Some(owned("Migrated from legacy settings")),
        }
    }
}

/// The role of a chat message.
#[derive(Clone, Copy, Debug, PartialEq, Eq, Structural)]
pub enum ChatRole {
    System,
    User,
    Assistant,
    Tool,
}

/// The OpenAI wire name of a role.
pub open spec fn role_wire_name(r: ChatRole) -> Seq<char> {
    match r {
        ChatRole::System => "system"@,
        ChatRole::User => "user"@,
        ChatRole::Assistant => "assistant"@,
        ChatRole::Tool => "tool"@,
    }
}

impl ChatRole {
    pub fn as_openai(self) -> (s: &'static str)
        ensures
            s@ == role_wire_name(self),
    {
        match self {
            ChatRole::System => "system",
            ChatRole::User => "user",
            ChatRole::Assistant => "assistant",
            ChatRole::Tool => "tool",
        }
    }
}

/// How risky a command is.
#[derive(Clone, Copy, Debug, PartialEq, Eq, Structural)]
pub enum RiskLevel {
    Low,
    Medium,
    High,
    Blocked,
}

/// A shell command that the assistant asks to run.
#[derive(Clone, Debug, PartialEq, Eq)]
pub struct CommandProposal {
    pub command: String,
    pub cwd: String,
    pub reason: String,
    pub risk_level: RiskLevel,
    pub requires_approval: bool,
}

impl CommandProposal {
    /// A low-risk proposal that requires approval.
    pub fn new(command: &str, cwd: &str, reason: &str) -> (p: Self)
        ensures
            p.command@ == command@,
            p.cwd@ == cwd@,
            p.reason@ == reason@,
            p.risk_level == RiskLevel::Low,
            p.requires_approval,
    {
        CommandProposal {
            command: owned(command),
            cwd: owned(cwd),
            reason: owned(reason),
            risk_level: RiskLevel::Low,
            requires_approval: true,
        }
    }
}

/// A copy of a proposal.
pub fn clone_proposal(p: &CommandProposal) -> (r: CommandProposal)
    ensures
        r.command@ == p.command@,
        r.cwd@ == p.cwd@,
        r.reason@ == p.reason@,
        r.risk_level == p.risk_level,
        r.requires_approval == p.requires_approval,
{
    CommandProposal {
        command: p.command.clone(),
        cwd: p.cwd.clone(),
        reason: p.reason.clone(),
        risk_level: p.risk_level,
        requires_approval: p.requires_approval,
    }
}

/// The state of a command run.
#[derive(Clone, Copy, Debug, PartialEq, Eq, Structural)]
pub enum CommandStatus {
    PendingApproval,
    Rejected,
    Running,
    Succeeded,
    Failed,
    TimedOut,
    Cancelled,
    Blocked,
}

/// `uuid::Uuid::new_v4`, as the UUID's 128-bit value. The value is random:
/// nothing is stated of it.
#[verifier::external_body]
pub(crate) fn new_id() -> u128 {
    uuid::Uuid::new_v4().as_u128()
}

/// `chrono::Utc::now` written with `DateTime::to_rfc3339`. The value is the
/// clock's: nothing is stated of it.
#[verifier::external_body]
pub(crate) fn now_rfc3339() -> String {
    chrono::Utc::now().to_rfc3339()
}

/// The lower-case hyphenated text of a UUID value (the `Display` of
/// `uuid::Uuid`): 32 hexadecimal digits, most significant first, grouped
/// 8-4-4-4-12.
pub open spec fn uuid_text_of(id: u128) -> Seq<char> {
    let h = hex_fixed(id as nat, 32);
    h.subrange(0, 8) + "-"@ + h.subrange(8, 12) + "-"@ + h.subrange(12, 16) + "-"@
        + h.subrange(16, 20) + "-"@ + h.subrange(20, 32)
}

pub proof fn lemma_hex_fixed_len(n: nat, w: nat)
    ensures
        hex_fixed(n, w).len() == w,
    decreases w,
{
    if w > 0 {
        lemma_hex_fixed_len(n / 16, (w - 1) as nat);
    }
}

/// The hyphenated text of a UUID value.
pub fn uuid_text(id: u128) -> (s: String)
    ensures
        s@ == uuid_text_of(id),
{
    let h = hex_fixed_chars(id, 32);
    proof {
        lemma_hex_fixed_len(id as nat, 32);
        reveal_strlit("-");
    }
    let mut s = String::new();
    let a = crate::text::slice(&h, 0, 8);
    push_chars(&mut s, &a);
    s.append("-");
    let b = crate::text::slice(&h, 8, 12);
    push_chars(&mut s, &b);
    s.append("-");
    let c = crate::text::slice(&h, 12, 16);
    push_chars(&mut s, &c);
    s.append("-");
    let d = crate::text::slice(&h, 16, 20);
    push_chars(&mut s, &d);
    s.append("-");
    let e = crate::text::slice(&h, 20, 32);
    push_chars(&mut s, &e);
    s
}

/// A chat message. The timestamp is RFC 3339 text.
#[derive(Clone, Debug, PartialEq, Eq)]
pub struct ChatMessage {
    pub id: u128,
    pub role: ChatRole,
    pub content: String,
    pub timestamp: String,
    pub tool_calls: Vec<CommandProposal>,
}

impl ChatMessage {
    /// A message stamped with a fresh random id and the current time.
    pub fn new(role: ChatRole, content: String) -> (m: Self)
        ensures
            m.role == role,
            m.content@ == content@,
            m.tool_calls@.len() == 0,
    {
        ChatMessage {
            id: new_id(),
            role,
            content,
            timestamp: now_rfc3339(),
            tool_calls: Vec::new(),
        }
    }
}

/// The outcome of running, or refusing to run, a proposal.
#[derive(Clone, Debug, PartialEq, Eq)]
pub struct CommandRun {
    pub id: u128,
    pub proposal: CommandProposal,
    pub status: CommandStatus,
    pub stdout: String,
    pub stderr: String,
    pub exit_code: Option<i32>,
    pub started_at: String,
    pub finished_at: String,
}

impl CommandRun {
    /// A run stamped with a fresh random id; it starts and finishes now.
    pub fn new(
        proposal: CommandProposal,
        status: CommandStatus,
        stdout: String,
        stderr: String,
        exit_code: Option<i32>,
    ) -> (r: Self)
        ensures
            r.proposal == proposal,
            r.status == status,
            r.stdout@ == stdout@,
            r.stderr@ == stderr@,
            r.exit_code == exit_code,
            r.started_at@ == r.finished_at@,
    {
        let now = now_rfc3339();
        CommandRun {
            id: new_id(),
            proposal,
            status,
            stdout,
            stderr,
            exit_code,
            started_at: now.clone(),
            finished_at: now,
        }
    }
}

/// What the policy decided about a proposal.
#[derive(Clone, Debug, PartialEq, Eq)]
pub struct PolicyDecision {
    pub allowed: bool,
    pub requires_approval: bool,
    pub risk_level: RiskLevel,
    pub reason: String,
}

/// The state of a wiki page.
#[derive(Clone, Copy, Debug, PartialEq, Eq, Structural)]
pub enum WikiStatus {
    Active,
    Conflict,
    Archived,
}

/// A wiki page. `confidence` is the page's confidence as written in its
/// frontmatter.
#[derive(Clone, Debug, PartialEq, Eq)]
pub struct WikiPage {
    pub id: u128,
    pub title: String,
    pub domain: String,
    pub source_count: u32,
    pub confidence: String,
    pub status: WikiStatus,
    pub body: String,
}

/// The state of an ingested source.
#[derive(Clone, Copy, Debug, PartialEq, Eq, Structural)]
pub enum SourceStatus {
    Active,
    Skipped,
    Failed,
}

/// A source file snapshot recorded by the wiki.
#[derive(Clone, Debug, PartialEq, Eq)]
pub struct SourceRecord {
    pub id: u128,
    pub path: String,
    pub hash: String,
    pub kind: String,
    pub ingested_at: String,
    pub status: SourceStatus,
}

/// One ingest of a source.
#[derive(Clone, Debug, PartialEq, Eq)]
pub struct IngestJob {
    pub id: u128,
    pub source_id: u128,
    pub status: SourceStatus,
    pub analysis_path: Option<String>,
    pub error: Option<String>,
}

/// Stored facts about a wiki page.
#[derive(Clone, Debug, PartialEq, Eq)]
pub struct WikiPageMetadata {
    pub id: u128,
    pub title: String,
    pub path: String,
    pub sources: Vec<u128>,
    pub updated_at: String,
    pub status: WikiStatus,
}

/// An event of a streaming model reply.
#[derive(Clone, Debug, PartialEq, Eq)]
pub enum LlmEvent {
    Token(String),
    Finished,
    Error(String),
}

/// An event of a running command.
#[derive(Clone, Debug, PartialEq, Eq)]
pub enum RunnerEvent {
    Stdout(String),
    Stderr(String),
    Finished(CommandStatus),
}

/// An event of the session store.
#[derive(Clone, Debug, PartialEq, Eq)]
pub enum StorageEvent {
    SessionSaved(u128),
    CommandRunSaved(u128),
}

/// The text of a UUID: 36 characters, no line break and no run of three
/// hyphens, beginning and ending with a hexadecimal digit.
pub proof fn lemma_uuid_text_shape(id: u128)
    ensures
        uuid_text_of(id).len() == 36,
        !contains(uuid_text_of(id), "---"@),
        !has_char(uuid_text_of(id), '\n'),
        is_hex_digit(uuid_text_of(id)[0]),
        is_hex_digit(uuid_text_of(id).last()),
{
    reveal_strlit("-");
    reveal_strlit("---");
    let h = hex_fixed(id as nat, 32);
    lemma_hex_fixed_digits(id as nat, 32);
    let d = "-"@;
    let h0 = h.subrange(0, 8);
    let h1 = h.subrange(8, 12);
    let h2 = h.subrange(12, 16);
    let h3 = h.subrange(16, 20);
    let h4 = h.subrange(20, 32);
    assert forall|a: int, b: int, k: int| 0 <= a <= b <= 32 && 0 <= k < b - a implies is_hex_digit(
        #[trigger] h.subrange(a, b)[k],
    ) by {
        assert(h.subrange(a, b)[k] == h[a + k]);
    }
    assert(!contains(d, "---"@));
    assert(!has_char(d, '\n'));
    lemma_no_dash_run(h0);
    lemma_no_dash_run(h1);
    lemma_no_dash_run(h2);
    lemma_no_dash_run(h3);
    lemma_no_dash_run(h4);
    let u1 = h0 + d;
    let u2 = u1 + h1;
    let u3 = u2 + d;
    let u4 = u3 + h2;
    let u5 = u4 + d;
    let u6 = u5 + h3;
    let u7 = u6 + d;
    let u8 = u7 + h4;
    assert(u8 == uuid_text_of(id));
    lemma_no_dash_run_concat(h0, d);
    lemma_no_dash_run_concat(u1, h1);
    lemma_no_dash_run_concat(u2, d);
    lemma_no_dash_run_concat(u3, h2);
    lemma_no_dash_run_concat(u4, d);
    lemma_no_dash_run_concat(u5, h3);
    lemma_no_dash_run_concat(u6, d);
    lemma_no_dash_run_concat(u7, h4);
    lemma_no_char_concat(h0, d, '\n');
    lemma_no_char_concat(u1, h1, '\n');
    lemma_no_char_concat(u2, d, '\n');
    lemma_no_char_concat(u3, h2, '\n');
    lemma_no_char_concat(u4, d, '\n');
    lemma_no_char_concat(u5, h3, '\n');
    lemma_no_char_concat(u6, d, '\n');
    lemma_no_char_concat(u7, h4, '\n');
    assert(u8[0] == h0[0]);
    assert(u8.last() == h4[11]);
}

/// Each character of a UUID's text is a hexadecimal digit or a hyphen.
/// Two UUID values with the same hyphenated text are the same value.
pub proof fn lemma_uuid_text_injective(a: u128, b: u128)
    requires
        uuid_text_of(a) == uuid_text_of(b),
    ensures
        a == b,
{
    reveal_strlit("-");
    let ha = hex_fixed(a as nat, 32);
    let hb = hex_fixed(b as nat, 32);
    lemma_hex_fixed_len(a as nat, 32);
    lemma_hex_fixed_len(b as nat, 32);
    let ua = uuid_text_of(a);
    let ub = uuid_text_of(b);
    assert forall|k: int| 0 <= k < 32 implies ha[k] == hb[k] by {
        if k < 8 {
            assert(ua[k] == ha[k] && ub[k] == hb[k]);
        } else if k < 12 {
            assert(ua[k + 1] == ha[k] && ub[k + 1] == hb[k]);
        } else if k < 16 {
            assert(ua[k + 2] == ha[k] && ub[k + 2] == hb[k]);
        } else if k < 20 {
            assert(ua[k + 3] == ha[k] && ub[k + 3] == hb[k]);
        } else {
            assert(ua[k + 4] == ha[k] && ub[k + 4] == hb[k]);
        }
    }
    assert(ha =~= hb);
    reveal_with_fuel(pow16, 33);
    assert(pow16(32) == 0x1_0000_0000_0000_0000_0000_0000_0000_0000nat);
    lemma_hex_fixed_injective(a as nat, b as nat, 32);
}

pub proof fn lemma_uuid_text_chars(id: u128, k: int)
    requires
        0 <= k < 36,
    ensures
        is_hex_digit(uuid_text_of(id)[k]) || uuid_text_of(id)[k] == '-',
{
    reveal_strlit("-");
    let h = hex_fixed(id as nat, 32);
    lemma_hex_fixed_digits(id as nat, 32);
    let u = uuid_text_of(id);
    if k < 8 {
        assert(u[k] == h[k]);
    } else if k == 8 || k == 13 || k == 18 || k == 23 {
    } else if k < 13 {
        assert(u[k] == h[k - 1]);
    } else if k < 18 {
        assert(u[k] == h[k - 2]);
    } else if k < 23 {
        assert(u[k] == h[k - 3]);
    } else {
        assert(u[k] == h[k - 4]);
    }
}

} // verus!
