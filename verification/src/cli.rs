//! The command-line front end's logic: REPL commands, fixed help texts,
//! workflow prompts, approval answers and proposal JSON in Markdown fences.

use vstd::prelude::*;
use vstd::utf8::{decode_utf8, valid_utf8};
use crate::path::{is_absolute, is_absolute_str, join, join_str};
use crate::types::{BackendKind, default_prompt_text, default_system_prompt};
use crate::agent::{parse_agent_output, reading, AgentOutput, Fields, output_is};
use crate::text::{
    lines, line_at, ascii_lower, ascii_lower_chars, is_text, owned, parse_u64, parse_u64_chars,
    slice, split_once, split_once_chars, starts_with, starts_with_chars, string_of, strip_prefix,
    strip_prefix_lit, strip_suffix, strip_suffix_lit, to_chars, trim, trim_chars, trim_start,
    trim_start_chars, lemma_trim_fixed, lemma_trim_idempotent, lemma_trim_space_prefix,
};

verus! {

/// A REPL setting command.
#[derive(Clone, Debug, PartialEq, Eq)]
pub enum SettingUpdate {
    BaseUrl(String),
    Model(String),
    ApiKey(Option<String>),
    Workspace(String),
    TimeoutSecs(u64),
}

/// A setting command as plain values.
pub enum SettingSpec {
    BaseUrl(Seq<char>),
    Model(Seq<char>),
    ApiKey(Option<Seq<char>>),
    Workspace(Seq<char>),
    TimeoutSecs(u64),
}

impl View for SettingUpdate {
    type V = SettingSpec;

    open spec fn view(&self) -> SettingSpec {
        match self {
            SettingUpdate::BaseUrl(v) => SettingSpec::BaseUrl(v@),
            SettingUpdate::Model(v) => SettingSpec::Model(v@),
            SettingUpdate::ApiKey(v) => SettingSpec::ApiKey(
                match v {
                    Some(k) => Some(k@),
                    None => None,
                },
            ),
            SettingUpdate::Workspace(v) => SettingSpec::Workspace(v@),
            SettingUpdate::TimeoutSecs(n) => SettingSpec::TimeoutSecs(*n),
        }
    }
}

/// A line typed at the REPL.
#[derive(Clone, Debug, PartialEq, Eq)]
pub enum ReplCommand {
    Empty,
    Help,
    Prompts,
    Settings,
    Setting(SettingUpdate),
    Models,
    ModelUse(String),
    ModelShow,
    Doctor,
    IngestFile(String),
    IngestFolder(String),
    Query(String),
    LintWiki,
    LogRecent,
    Sources,
    Plan(String),
    Debug(String),
    Verify,
    Review,
    Tools,
    Runs,
    Last,
    Retry,
    Clear,
    WikiList,
    WikiSearch(String),
    Exit,
    Prompt(String),
    Unknown(String),
}

/// A REPL line's meaning as plain values.
pub enum ReplSpec {
    Empty,
    Help,
    Prompts,
    Settings,
    Setting(SettingSpec),
    Models,
    ModelUse(Seq<char>),
    ModelShow,
    Doctor,
    IngestFile(Seq<char>),
    IngestFolder(Seq<char>),
    Query(Seq<char>),
    LintWiki,
    LogRecent,
    Sources,
    Plan(Seq<char>),
    Debug(Seq<char>),
    Verify,
    Review,
    Tools,
    Runs,
    Last,
    Retry,
    Clear,
    WikiList,
    WikiSearch(Seq<char>),
    Exit,
    Prompt(Seq<char>),
    Unknown(Seq<char>),
}

impl View for ReplCommand {
    type V = ReplSpec;

    open spec fn view(&self) -> ReplSpec {
        match self {
            ReplCommand::Empty => ReplSpec::Empty,
            ReplCommand::Help => ReplSpec::Help,
            ReplCommand::Prompts => ReplSpec::Prompts,
            ReplCommand::Settings => ReplSpec::Settings,
            ReplCommand::Setting(u) => ReplSpec::Setting(u@),
            ReplCommand::Models => ReplSpec::Models,
            ReplCommand::ModelUse(s) => ReplSpec::ModelUse(s@),
            ReplCommand::ModelShow => ReplSpec::ModelShow,
            ReplCommand::Doctor => ReplSpec::Doctor,
            ReplCommand::IngestFile(s) => ReplSpec::IngestFile(s@),
            ReplCommand::IngestFolder(s) => ReplSpec::IngestFolder(s@),
            ReplCommand::Query(s) => ReplSpec::Query(s@),
            ReplCommand::LintWiki => ReplSpec::LintWiki,
            ReplCommand::LogRecent => ReplSpec::LogRecent,
            ReplCommand::Sources => ReplSpec::Sources,
            ReplCommand::Plan(s) => ReplSpec::Plan(s@),
            ReplCommand::Debug(s) => ReplSpec::Debug(s@),
            ReplCommand::Verify => ReplSpec::Verify,
            ReplCommand::Review => ReplSpec::Review,
            ReplCommand::Tools => ReplSpec::Tools,
            ReplCommand::Runs => ReplSpec::Runs,
            ReplCommand::Last => ReplSpec::Last,
            ReplCommand::Retry => ReplSpec::Retry,
            ReplCommand::Clear => ReplSpec::Clear,
            ReplCommand::WikiList => ReplSpec::WikiList,
            ReplCommand::WikiSearch(s) => ReplSpec::WikiSearch(s@),
            ReplCommand::Exit => ReplSpec::Exit,
            ReplCommand::Prompt(s) => ReplSpec::Prompt(s@),
            ReplCommand::Unknown(s) => ReplSpec::Unknown(s@),
        }
    }
}

/// The meaning of `/set KEY VALUE`, given the trimmed line `t` and the text
/// `rest` after `/set `.
pub open spec fn set_meaning(t: Seq<char>, rest: Seq<char>) -> ReplSpec {
    match split_once(rest, ' ') {
        None => ReplSpec::Unknown(t),
        Some((key, value0)) => {
            let value = trim(value0);
            if value.len() == 0 {
                ReplSpec::Unknown(t)
            } else if key == "base-url"@ || key == "base_url"@ {
                ReplSpec::Setting(SettingSpec::BaseUrl(value))
            } else if key == "model"@ {
                ReplSpec::Setting(SettingSpec::Model(value))
            } else if key == "api-key"@ || key == "api_key"@ {
                ReplSpec::Setting(
                    SettingSpec::ApiKey(
                        if ascii_lower(value) == "none"@ {
                            None
                        } else {
                            Some(value)
                        },
                    ),
                )
            } else if key == "workspace"@ {
                ReplSpec::Setting(SettingSpec::Workspace(value))
            } else if key == "timeout"@ || key == "timeout-secs"@ || key == "timeout_secs"@ {
                match parse_u64(value) {
                    Some(n) => ReplSpec::Setting(SettingSpec::TimeoutSecs(n)),
                    None => ReplSpec::Unknown(t),
                }
            } else {
                ReplSpec::Unknown(t)
            }
        },
    }
}

/// The argument after a command prefix: its trimmed text, when not blank.
pub open spec fn argument(t: Seq<char>, prefix: Seq<char>) -> Option<Seq<char>> {
    match strip_prefix(t, prefix) {
        Some(a) => if trim(a).len() == 0 {
            None
        } else {
            Some(trim(a))
        },
        None => None,
    }
}

/// The meaning of a trimmed slash command that takes an argument.
pub open spec fn parameterized_meaning(t: Seq<char>) -> ReplSpec {
    if strip_prefix(t, "/wiki search "@) is Some {
        match argument(t, "/wiki search "@) {
            Some(a) => ReplSpec::WikiSearch(a),
            None => ReplSpec::Unknown(t),
        }
    } else if strip_prefix(t, "/ingest file "@) is Some {
        match argument(t, "/ingest file "@) {
            Some(a) => ReplSpec::IngestFile(a),
            None => ReplSpec::Unknown(t),
        }
    } else if strip_prefix(t, "/ingest folder "@) is Some {
        match argument(t, "/ingest folder "@) {
            Some(a) => ReplSpec::IngestFolder(a),
            None => ReplSpec::Unknown(t),
        }
    } else if strip_prefix(t, "/query "@) is Some {
        match argument(t, "/query "@) {
            Some(a) => ReplSpec::Query(a),
            None => ReplSpec::Unknown(t),
        }
    } else if strip_prefix(t, "/plan "@) is Some {
        match argument(t, "/plan "@) {
            Some(a) => ReplSpec::Plan(a),
            None => ReplSpec::Unknown(t),
        }
    } else if strip_prefix(t, "/debug "@) is Some {
        match argument(t, "/debug "@) {
            Some(a) => ReplSpec::Debug(a),
            None => ReplSpec::Unknown(t),
        }
    } else if strip_prefix(t, "/model use "@) is Some {
        match argument(t, "/model use "@) {
            Some(a) => ReplSpec::ModelUse(a),
            None => ReplSpec::Unknown(t),
        }
    } else {
        match strip_prefix(t, "/set "@) {
            Some(rest) => set_meaning(t, rest),
            None => ReplSpec::Unknown(t),
        }
    }
}

/// The meaning of a line typed at the REPL: blank lines are empty, lines
/// without a leading `/` are prompts, and slash commands are read from the
/// trimmed line.
pub open spec fn repl_meaning(line: Seq<char>) -> ReplSpec {
    let t = trim(line);
    if t.len() == 0 {
        ReplSpec::Empty
    } else if !starts_with(t, "/"@) {
        ReplSpec::Prompt(t)
    } else if t == "/exit"@ || t == "/quit"@ {
        ReplSpec::Exit
    } else if t == "/help"@ {
        ReplSpec::Help
    } else if t == "/prompts"@ {
        ReplSpec::Prompts
    } else if t == "/settings"@ {
        ReplSpec::Settings
    } else if t == "/models"@ || t == "/models list"@ {
        ReplSpec::Models
    } else if t == "/model show"@ {
        ReplSpec::ModelShow
    } else if t == "/doctor"@ {
        ReplSpec::Doctor
    } else if t == "/wiki list"@ {
        ReplSpec::WikiList
    } else if t == "/lint wiki"@ {
        ReplSpec::LintWiki
    } else if t == "/log recent"@ {
        ReplSpec::LogRecent
    } else if t == "/sources"@ || t == "/sources list"@ {
        ReplSpec::Sources
    } else if t == "/verify"@ {
        ReplSpec::Verify
    } else if t == "/review"@ {
        ReplSpec::Review
    } else if t == "/tools"@ {
        ReplSpec::Tools
    } else if t == "/runs"@ {
        ReplSpec::Runs
    } else if t == "/last"@ {
        ReplSpec::Last
    } else if t == "/retry"@ {
        ReplSpec::Retry
    } else if t == "/clear"@ {
        ReplSpec::Clear
    } else {
        parameterized_meaning(t)
    }
}

/// The trimmed argument after `prefix`, when `t` starts with it and the
/// argument is not blank; `Err` when `t` does not start with `prefix`.
fn argument_of(t: &Vec<char>, prefix: &str) -> (r: Result<Option<String>, ()>)
    ensures
        r is Err <==> strip_prefix(t@, prefix@) is None,
        r matches Ok(a) ==> argument(t@, prefix@) == (match a {
            Some(s) => Some(s@),
            None => None::<Seq<char>>,
        }),
{
    match strip_prefix_lit(t, prefix) {
        Some(a) => {
            let v = trim_chars(&a);
            if v.len() == 0 {
                Ok(None)
            } else {
                Ok(Some(string_of(&v)))
            }
        },
        None => Err(()),
    }
}

/// Reads `/set KEY VALUE` from the trimmed line `t`, `rest` being the text
/// after `/set `.
fn parse_set_command(t: &Vec<char>, rest: &Vec<char>) -> (r: ReplCommand)
    ensures
        r@ == set_meaning(t@, rest@),
{
    let unknown = ReplCommand::Unknown(string_of(t));
    let (key, value0) = match split_once_chars(rest, ' ') {
        Some(x) => x,
        None => {
            return unknown;
        },
    };
    let value = trim_chars(&value0);
    if value.len() == 0 {
        return unknown;
    }
    if is_text(&key, "base-url") || is_text(&key, "base_url") {
        ReplCommand::Setting(SettingUpdate::BaseUrl(string_of(&value)))
    } else if is_text(&key, "model") {
        ReplCommand::Setting(SettingUpdate::Model(string_of(&value)))
    } else if is_text(&key, "api-key") || is_text(&key, "api_key") {
        let lower = ascii_lower_chars(&value);
        if is_text(&lower, "none") {
            ReplCommand::Setting(SettingUpdate::ApiKey(None))
        } else {
            ReplCommand::Setting(SettingUpdate::ApiKey(Some(string_of(&value))))
        }
    } else if is_text(&key, "workspace") {
        ReplCommand::Setting(SettingUpdate::Workspace(string_of(&value)))
    } else if is_text(&key, "timeout") || is_text(&key, "timeout-secs") || is_text(
        &key,
        "timeout_secs",
    ) {
        match parse_u64_chars(&value) {
            Some(n) => ReplCommand::Setting(SettingUpdate::TimeoutSecs(n)),
            None => unknown,
        }
    } else {
        unknown
    }
}

/// Reads a trimmed slash command that takes an argument.
fn parse_parameterized_repl_command(t: &Vec<char>) -> (r: ReplCommand)
    ensures
        r@ == parameterized_meaning(t@),
{
    let unknown_text = string_of(t);
    if let Ok(a) = argument_of(t, "/wiki search ") {
        return match a {
            Some(s) => ReplCommand::WikiSearch(s),
            None => ReplCommand::Unknown(unknown_text),
        };
    }
    if let Ok(a) = argument_of(t, "/ingest file ") {
        return match a {
            Some(s) => ReplCommand::IngestFile(s),
            None => ReplCommand::Unknown(unknown_text),
        };
    }
    if let Ok(a) = argument_of(t, "/ingest folder ") {
        return match a {
            Some(s) => ReplCommand::IngestFolder(s),
            None => ReplCommand::Unknown(unknown_text),
        };
    }
    if let Ok(a) = argument_of(t, "/query ") {
        return match a {
            Some(s) => ReplCommand::Query(s),
            None => ReplCommand::Unknown(unknown_text),
        };
    }
    if let Ok(a) = argument_of(t, "/plan ") {
        return match a {
            Some(s) => ReplCommand::Plan(s),
            None => ReplCommand::Unknown(unknown_text),
        };
    }
    if let Ok(a) = argument_of(t, "/debug ") {
        return match a {
            Some(s) => ReplCommand::Debug(s),
            None => ReplCommand::Unknown(unknown_text),
        };
    }
    if let Ok(a) = argument_of(t, "/model use ") {
        return match a {
            Some(s) => ReplCommand::ModelUse(s),
            None => ReplCommand::Unknown(unknown_text),
        };
    }
    match strip_prefix_lit(t, "/set ") {
        Some(rest) => parse_set_command(t, &rest),
        None => ReplCommand::Unknown(unknown_text),
    }
}

/// Reads a line typed at the REPL.
pub fn parse_repl_line(line: &str) -> (r: ReplCommand)
    ensures
        r@ == repl_meaning(line@),
{
    let t = trim_chars(&to_chars(line));
    if t.len() == 0 {
        return ReplCommand::Empty;
    }
    let slash = to_chars("/");
    if !starts_with_chars(&t, &slash) {
        return ReplCommand::Prompt(string_of(&t));
    }
    if is_text(&t, "/exit") || is_text(&t, "/quit") {
        ReplCommand::Exit
    } else if is_text(&t, "/help") {
        ReplCommand::Help
    } else if is_text(&t, "/prompts") {
        ReplCommand::Prompts
    } else if is_text(&t, "/settings") {
        ReplCommand::Settings
    } else if is_text(&t, "/models") || is_text(&t, "/models list") {
        ReplCommand::Models
    } else if is_text(&t, "/model show") {
        ReplCommand::ModelShow
    } else if is_text(&t, "/doctor") {
        ReplCommand::Doctor
    } else if is_text(&t, "/wiki list") {
        ReplCommand::WikiList
    } else if is_text(&t, "/lint wiki") {
        ReplCommand::LintWiki
    } else if is_text(&t, "/log recent") {
        ReplCommand::LogRecent
    } else if is_text(&t, "/sources") || is_text(&t, "/sources list") {
        ReplCommand::Sources
    } else if is_text(&t, "/verify") {
        ReplCommand::Verify
    } else if is_text(&t, "/review") {
        ReplCommand::Review
    } else if is_text(&t, "/tools") {
        ReplCommand::Tools
    } else if is_text(&t, "/runs") {
        ReplCommand::Runs
    } else if is_text(&t, "/last") {
        ReplCommand::Last
    } else if is_text(&t, "/retry") {
        ReplCommand::Retry
    } else if is_text(&t, "/clear") {
        ReplCommand::Clear
    } else {
        parse_parameterized_repl_command(&t)
    }
}


/// Why a command of the front end failed.
#[derive(Clone, Debug, PartialEq, Eq)]
pub enum CliError {
    ParseAgentOutput,
    ParseFencedAgentOutput,
    NotAProposal,
    Blank(String),
    TimeoutZero,
    UnknownBackend(String),
    ProfileNotFound(String),
    FileOutsideWorkspace(String),
    FolderOutsideWorkspace(String),
    InvalidUtf8,
}

/// The message of an error, as the front end prints it.
pub open spec fn error_text(e: CliError) -> Seq<char> {
    match e {
        CliError::ParseAgentOutput => "parse agent output"@,
        CliError::ParseFencedAgentOutput => "parse fenced agent output"@,
        CliError::NotAProposal => "input is not a strict command proposal JSON"@,
        CliError::Blank(name) => name@ + " cannot be empty"@,
        CliError::TimeoutZero => "timeout must be greater than 0"@,
        CliError::UnknownBackend(other) => "unknown backend kind: "@ + other@,
        CliError::ProfileNotFound(id) => "model profile '"@ + id@ + "' was not found"@,
        CliError::FileOutsideWorkspace(p) => "@file path is outside trusted workspace: "@ + p@,
        CliError::FolderOutsideWorkspace(p) => "folder path is outside trusted workspace: "@ + p@,
        CliError::InvalidUtf8 => "stream did not contain valid UTF-8"@,
    }
}

impl CliError {
    /// The error's message.
    pub fn message(&self) -> (s: String)
        ensures
            s@ == error_text(*self),
    {
        match self {
            CliError::ParseAgentOutput => owned("parse agent output"),
            CliError::ParseFencedAgentOutput => owned("parse fenced agent output"),
            CliError::NotAProposal => owned("input is not a strict command proposal JSON"),
            CliError::Blank(name) => {
                let mut s = name.clone();
                s.append(" cannot be empty");
                s
            },
            CliError::TimeoutZero => owned("timeout must be greater than 0"),
            CliError::UnknownBackend(other) => {
                let mut s = owned("unknown backend kind: ");
                s.append(other.as_str());
                s
            },
            CliError::ProfileNotFound(id) => {
                let mut s = owned("model profile '");
                s.append(id.as_str());
                s.append("' was not found");
                s
            },
            CliError::FileOutsideWorkspace(p) => {
                let mut s = owned("@file path is outside trusted workspace: ");
                s.append(p.as_str());
                s
            },
            CliError::FolderOutsideWorkspace(p) => {
                let mut s = owned("folder path is outside trusted workspace: ");
                s.append(p.as_str());
                s
            },
            CliError::InvalidUtf8 => owned("stream did not contain valid UTF-8"),
        }
    }
}

/// The hint shown under a proposal that may run once approved.
pub open spec fn approval_hint_text() -> Seq<char> {
    "approval required: rerun with --yes to execute this allowed command"@
}

pub fn approval_hint() -> (s: &'static str)
    ensures
        s@ == approval_hint_text(),
{
    "approval required: rerun with --yes to execute this allowed command"
}

/// The REPL help text.
pub open spec fn repl_help_text() -> Seq<char> {
    "CodeSmith interactive commands\n/help                     show this help\n/settings                 show all current settings\n/set base-url <url>       set OpenAI-compatible base URL\n/set model <name>         set local model name\n/set api-key <key|none>   set or clear API key placeholder\n/set workspace <path>     set command workspace\n/set timeout <seconds>    set command timeout\n/models                   list model profiles\n/model use <id>           switch active model profile\n/model show               show active model profile\n/prompts                  show recommended prompts\n/doctor                   test local LLM connection\n/ingest file <path>       snapshot a trusted workspace file into raw/ and wiki\n/ingest folder <path>     recursively ingest supported source files\n/query <question>         build local wiki context for a question\n/lint wiki                check frontmatter, wikilinks, and duplicate titles\n/log recent               show recent operation log entries\n/sources                  list ingested source records\n/plan <goal>              shape goal, scope, risks, and verification before acting\n/debug <symptom>          use root-cause debugging before proposing fixes\n/verify                   summarize command evidence before completion claims\n/review                   review recent run risks and missing checks\n/wiki list                list saved wiki pages\n/wiki search <query>      search local wiki\n/tools                    show available tools and approval policy\n/runs                     show command runs from this chat\n/last                     show the last command result\n/retry                    retry the last command proposal\n/clear                    clear in-memory chat history\n/exit                     quit\n"@
}

pub fn repl_help() -> (s: &'static str)
    ensures
        s@ == repl_help_text(),
{
    "CodeSmith interactive commands\n/help                     show this help\n/settings                 show all current settings\n/set base-url <url>       set OpenAI-compatible base URL\n/set model <name>         set local model name\n/set api-key <key|none>   set or clear API key placeholder\n/set workspace <path>     set command workspace\n/set timeout <seconds>    set command timeout\n/models                   list model profiles\n/model use <id>           switch active model profile\n/model show               show active model profile\n/prompts                  show recommended prompts\n/doctor                   test local LLM connection\n/ingest file <path>       snapshot a trusted workspace file into raw/ and wiki\n/ingest folder <path>     recursively ingest supported source files\n/query <question>         build local wiki context for a question\n/lint wiki                check frontmatter, wikilinks, and duplicate titles\n/log recent               show recent operation log entries\n/sources                  list ingested source records\n/plan <goal>              shape goal, scope, risks, and verification before acting\n/debug <symptom>          use root-cause debugging before proposing fixes\n/verify                   summarize command evidence before completion claims\n/review                   review recent run risks and missing checks\n/wiki list                list saved wiki pages\n/wiki search <query>      search local wiki\n/tools                    show available tools and approval policy\n/runs                     show command runs from this chat\n/last                     show the last command result\n/retry                    retry the last command proposal\n/clear                    clear in-memory chat history\n/exit                     quit\n"
}

/// The `/tools` text.
pub open spec fn tools_text() -> Seq<char> {
    "CodeSmith tools\n- shell command proposals: approval required every time\n- runner: streams stdout/stderr and records exit status\n- policy: blocks destructive, privileged, credential, exfiltration, and outside-workspace commands\n- wiki: ingest, query, lint, sources, and operation log\n- workflow: plan before implementing, debug before fixing, verify before completion claims\n- diagnostics: prefer small read-only commands before mutating commands\n- model profiles: Ollama, vLLM, LiteLLM, and OpenAI-compatible local endpoints\n"@
}

pub fn tools_output() -> (s: &'static str)
    ensures
        s@ == tools_text(),
{
    "CodeSmith tools\n- shell command proposals: approval required every time\n- runner: streams stdout/stderr and records exit status\n- policy: blocks destructive, privileged, credential, exfiltration, and outside-workspace commands\n- wiki: ingest, query, lint, sources, and operation log\n- workflow: plan before implementing, debug before fixing, verify before completion claims\n- diagnostics: prefer small read-only commands before mutating commands\n- model profiles: Ollama, vLLM, LiteLLM, and OpenAI-compatible local endpoints\n"
}

/// The `/prompts` text.
pub open spec fn recommended_prompts_text() -> Seq<char> {
    "Recommended prompts\n- Summarize this project structure and suggest the next safe command.\n- Inspect @workspace and propose a read-only diagnostic command.\n- Explain @file:Cargo.toml and list important dependencies.\n- Search the local wiki for prior command patterns before answering.\n"@
}

pub fn recommended_prompts_output() -> (s: &'static str)
    ensures
        s@ == recommended_prompts_text(),
{
    "Recommended prompts\n- Summarize this project structure and suggest the next safe command.\n- Inspect @workspace and propose a read-only diagnostic command.\n- Explain @file:Cargo.toml and list important dependencies.\n- Search the local wiki for prior command patterns before answering.\n"
}

/// The file that lists trusted workspaces, under the data root.
pub fn trusted_workspaces_path(root: &str) -> (p: String)
    ensures
        p@ == join(root@, "trusted-workspaces.txt"@),
{
    join_str(root, "trusted-workspaces.txt")
}

/// The question asked before a workspace is trusted.
pub fn workspace_trust_prompt(workspace: &str) -> (s: String)
    ensures
        s@ == "Trust this workspace?\n"@ + workspace@
            + "\nOnly trusted workspaces can use interactive LLM prompts and command approvals. Type 'yes' to trust: "@,
{
    let mut s = owned("Trust this workspace?\n");
    s.append(workspace);
    s.append(
        "\nOnly trusted workspaces can use interactive LLM prompts and command approvals. Type 'yes' to trust: ",
    );
    s
}

/// The `/plan` prompt for a goal.
pub fn plan_workflow_prompt(goal: &str) -> (s: String)
    ensures
        s@ == "Create a concise implementation plan for this goal before proposing any command: "@
            + goal@
            + "\nInclude: goal, scope, success criteria, risks, smallest safe first steps, and verification commands. Do not claim anything is complete. If a command is needed, prefer a read-only diagnostic command proposal."@,
{
    let mut s = owned(
        "Create a concise implementation plan for this goal before proposing any command: ",
    );
    s.append(goal);
    s.append(
        "\nInclude: goal, scope, success criteria, risks, smallest safe first steps, and verification commands. Do not claim anything is complete. If a command is needed, prefer a read-only diagnostic command proposal.",
    );
    s
}

/// The `/debug` prompt for a symptom.
pub fn debug_workflow_prompt(symptom: &str) -> (s: String)
    ensures
        s@ == "Use systematic debugging for this symptom: "@ + symptom@
            + "\nInclude: reproduction steps, observed evidence, likely root cause hypotheses, one minimal test, and the next safest diagnostic. Do not propose a fix until evidence supports the root cause."@,
{
    let mut s = owned("Use systematic debugging for this symptom: ");
    s.append(symptom);
    s.append(
        "\nInclude: reproduction steps, observed evidence, likely root cause hypotheses, one minimal test, and the next safest diagnostic. Do not propose a fix until evidence supports the root cause.",
    );
    s
}

/// The backend a name stands for: the trimmed, ASCII lower-cased name.
pub open spec fn backend_of(name: Seq<char>) -> Option<BackendKind> {
    let n = ascii_lower(trim(name));
    if n == "ollama"@ {
        Some(BackendKind::Ollama)
    } else if n == "vllm"@ {
        Some(BackendKind::Vllm)
    } else if n == "litellm"@ {
        Some(BackendKind::Litellm)
    } else if n == "openai_compatible"@ || n == "openai-compatible"@ || n == "custom"@ {
        Some(BackendKind::OpenAiCompatible)
    } else {
        None
    }
}

/// Reads a backend name; an unknown name is an error naming it.
pub fn parse_backend_kind(input: &str) -> (r: Result<BackendKind, CliError>)
    ensures
        r matches Ok(k) ==> backend_of(input@) == Some(k),
        r matches Err(e) ==> backend_of(input@) is None && (e matches CliError::UnknownBackend(o)
            && o@ == ascii_lower(trim(input@))),
{
    let n = ascii_lower_chars(&trim_chars(&to_chars(input)));
    if is_text(&n, "ollama") {
        Ok(BackendKind::Ollama)
    } else if is_text(&n, "vllm") {
        Ok(BackendKind::Vllm)
    } else if is_text(&n, "litellm") {
        Ok(BackendKind::Litellm)
    } else if is_text(&n, "openai_compatible") || is_text(&n, "openai-compatible") || is_text(
        &n,
        "custom",
    ) {
        Ok(BackendKind::OpenAiCompatible)
    } else {
        Err(CliError::UnknownBackend(string_of(&n)))
    }
}


/// The model that gets a prompt of its own.
pub open spec fn tuned_model_name() -> Seq<char> {
    "gag0/qwen35-opus-distil:27b"@
}

/// The system prompt for that model.
pub open spec fn tuned_prompt_text() -> Seq<char> {
    "You are CodeSmith running on gag0/qwen35-opus-distil:27b. Maximize correctness by being concise, explicit, and conservative. CodeSmith is execution-only: never imply that a command ran unless tool output proves it. If a shell command is needed, return one strict JSON object only with command, cwd, and reason fields. Do not use Markdown fences, comments, trailing prose, or extra keys around command proposal JSON. Prefer commands that write only inside the configured workspace, and keep debugging steps observable through stdout/stderr."@
}

/// The system prompt a new profile for `model` starts with.
pub open spec fn prompt_for(model: Seq<char>) -> Seq<char> {
    if model == tuned_model_name() {
        tuned_prompt_text()
    } else {
        default_prompt_text()
    }
}

pub fn prompt_for_model(model: &str) -> (s: String)
    ensures
        s@ == prompt_for(model@),
{
    let m = to_chars(model);
    if is_text(&m, "gag0/qwen35-opus-distil:27b") {
        return owned(
            "You are CodeSmith running on gag0/qwen35-opus-distil:27b. Maximize correctness by being concise, explicit, and conservative. CodeSmith is execution-only: never imply that a command ran unless tool output proves it. If a shell command is needed, return one strict JSON object only with command, cwd, and reason fields. Do not use Markdown fences, comments, trailing prose, or extra keys around command proposal JSON. Prefer commands that write only inside the configured workspace, and keep debugging steps observable through stdout/stderr.",
        );
    }
    default_system_prompt()
}

/// The JSON inside a Markdown code fence: the trimmed reply with a leading
/// `` ```json `` or `` ``` `` and a trailing `` ``` `` removed, trimmed.
pub open spec fn fenced_body(s: Seq<char>) -> Option<Seq<char>> {
    let t = trim(s);
    let opened = match strip_prefix(t, "```json"@) {
        Some(b) => Some(b),
        None => strip_prefix(t, "```"@),
    };
    match opened {
        None => None,
        Some(b) => match strip_suffix(trim_start(b), "```"@) {
            Some(x) => Some(trim(x)),
            None => None,
        },
    }
}

/// The JSON inside a Markdown code fence.
pub fn fenced_json_body(input: &str) -> (r: Option<String>)
    ensures
        r matches Some(x) ==> fenced_body(input@) == Some(x@),
        r is None ==> fenced_body(input@) is None,
{
    let t = trim_chars(&to_chars(input));
    let opened = match strip_prefix_lit(&t, "```json") {
        Some(b) => Some(b),
        None => strip_prefix_lit(&t, "```"),
    };
    match opened {
        None => None,
        Some(b) => {
            let b2 = trim_start_chars(&b);
            match strip_suffix_lit(&b2, "```") {
                Some(x) => Some(string_of(&trim_chars(&x))),
                None => None,
            }
        },
    }
}

/// How the front end reads a reply: as the agent reads it, and when that
/// gives plain text, the JSON inside a Markdown fence as the agent reads it.
pub open spec fn cli_reading(s: Seq<char>) -> Result<(Seq<char>, Option<Fields>), CliError> {
    match reading(s) {
        Err(_) => Err(CliError::ParseAgentOutput),
        Ok(Some(f)) => Ok((s, Some(f))),
        Ok(None) => match fenced_body(s) {
            None => Ok((s, None)),
            Some(body) => match reading(body) {
                Err(_) => Err(CliError::ParseFencedAgentOutput),
                Ok(x) => Ok((body, x)),
            },
        },
    }
}

/// Reads a reply, also accepting a proposal inside a Markdown code fence.
/// Plain text is the reply itself, or the fenced body when there is a fence.
pub fn parse_cli_agent_output(input: &str) -> (r: Result<AgentOutput, CliError>)
    ensures
        r matches Err(e) ==> cli_reading(input@) == Err::<(Seq<char>, Option<Fields>), CliError>(e),
        r matches Ok(o) ==> cli_reading(input@) matches Ok((text, x)) && output_is(o, text, x),
        r is Ok <==> cli_reading(input@) is Ok,
{
    let parsed = match parse_agent_output(input) {
        Ok(p) => p,
        Err(_) => {
            return Err(CliError::ParseAgentOutput);
        },
    };
    if let AgentOutput::Command(_) = parsed {
        return Ok(parsed);
    }
    let json = match fenced_json_body(input) {
        Some(j) => j,
        None => {
            return Ok(parsed);
        },
    };
    match parse_agent_output(json.as_str()) {
        Ok(p) => Ok(p),
        Err(_) => Err(CliError::ParseFencedAgentOutput),
    }
}

/// Reads a strict command proposal; anything else is an error.
pub fn parse_command_proposal(json: &str) -> (r: Result<crate::types::CommandProposal, CliError>)
    ensures
        r matches Ok(p) ==> cli_reading(json@) matches Ok((_, x)) && x == Some(
            (p.command@, p.cwd@, p.reason@),
        ) && p.requires_approval,
        r matches Err(e) ==> (cli_reading(json@) is Err && e == CliError::ParseAgentOutput) || (
        cli_reading(json@) matches Ok((_, x)) && x is None && e == CliError::NotAProposal),
{
    match parse_cli_agent_output(json) {
        Ok(AgentOutput::Command(p)) => Ok(p),
        Ok(AgentOutput::Text(_)) => Err(CliError::NotAProposal),
        Err(_) => Err(CliError::ParseAgentOutput),
    }
}

/// A command shortened to at most `limit` characters, the last one `…`
/// when it was cut.
pub open spec fn compacted(command: Seq<char>, limit: nat) -> Seq<char> {
    if command.len() <= limit {
        command
    } else {
        command.take(limit - 1).push('…')
    }
}

/// Shortens a command for one-line display.
pub fn compact_command(command: &str, limit: usize) -> (s: String)
    requires
        limit >= 1,
    ensures
        s@ == compacted(command@, limit as nat),
{
    let v = to_chars(command);
    if v.len() <= limit {
        return owned(command);
    }
    let mut t = slice(&v, 0, limit - 1);
    t.push('…');
    string_of(&t)
}

/// The first line of a text, or nothing.
pub open spec fn first_line_of(s: Seq<char>) -> Seq<char> {
    if lines(s).len() > 0 {
        lines(s)[0]
    } else {
        seq![]
    }
}

/// The first line of a text.
pub fn first_line(value: &str) -> (s: String)
    ensures
        s@ == first_line_of(value@),
{
    let v = to_chars(value);
    if v.len() == 0 {
        return String::new();
    }
    let (line, _) = line_at(&v, 0);
    string_of(&line)
}

/// The directory a proposal runs in: its own when absolute, else under the
/// workspace.
pub open spec fn resolved_cwd(cwd: Seq<char>, workspace: Seq<char>) -> Seq<char> {
    if is_absolute(cwd) {
        cwd
    } else {
        join(workspace, cwd)
    }
}

pub fn resolve_proposal_cwd(cwd: &str, workspace: &str) -> (r: String)
    ensures
        r@ == resolved_cwd(cwd@, workspace@),
{
    if is_absolute_str(cwd) {
        owned(cwd)
    } else {
        join_str(workspace, cwd)
    }
}

/// Rejects a blank value, naming the setting.
pub fn ensure_non_empty(name: &str, value: &str) -> (r: Result<(), CliError>)
    ensures
        r is Ok <==> trim(value@).len() != 0,
        r matches Err(e) ==> e matches CliError::Blank(n) && n@ == name@,
{
    if crate::text::is_blank(value) {
        Err(CliError::Blank(owned(name)))
    } else {
        Ok(())
    }
}

/// The prompt written before each approval answer is read.
pub open spec fn approve_prompt() -> Seq<char> {
    "Approve? type y or n: "@
}

/// The index after the line that starts at `i` (after its `\n`, or the end).
pub open spec fn line_end(b: Seq<u8>, i: int) -> int
    decreases b.len() - i,
{
    if i < 0 || i >= b.len() {
        b.len() as int
    } else if b[i] == 10u8 {
        i + 1
    } else {
        line_end(b, i + 1)
    }
}

pub proof fn lemma_line_end(b: Seq<u8>, i: int)
    requires
        0 <= i < b.len(),
    ensures
        i < line_end(b, i) <= b.len(),
    decreases b.len() - i,
{
    if b[i] != 10u8 {
        if i + 1 < b.len() {
            lemma_line_end(b, i + 1);
        } else {
            assert(line_end(b, i + 1) == b.len());
        }
    }
}

/// An answer that approves.
pub open spec fn is_yes(t: Seq<char>) -> bool {
    t == "y"@ || t == "Y"@ || t == "yes"@ || t == "YES"@
}

/// An answer that rejects.
pub open spec fn is_no(t: Seq<char>) -> bool {
    t == "n"@ || t == "N"@ || t == "no"@ || t == "NO"@
}

/// What reading approval answers from `input[i..]` decides, and the bytes
/// it writes: the prompt before each line; at the end of input, `rejected`
/// and no approval; a line that is not UTF-8 is an error; an explicit yes or
/// no decides; anything else, a blank line too, asks again.
pub open spec fn approval_from(input: Seq<u8>, i: int) -> (Result<bool, CliError>, Seq<u8>)
    decreases input.len() - i,
{
    if i < 0 || i >= input.len() {
        (Ok(false), utf8_of(approve_prompt()) + utf8_of("rejected\n"@))
    } else {
        let j = line_end(input, i);
        let line = input.subrange(i, j);
        if !valid_utf8(line) {
            (Err(CliError::InvalidUtf8), utf8_of(approve_prompt()))
        } else {
            let t = trim(decode_utf8(line));
            if is_yes(t) {
                (Ok(true), utf8_of(approve_prompt()))
            } else if is_no(t) {
                (Ok(false), utf8_of(approve_prompt()))
            } else {
                proof {
                    lemma_line_end(input, i);
                }
                let rest = approval_from(input, j);
                (rest.0, utf8_of(approve_prompt()) + utf8_of("Please type y or n.\n"@) + rest.1)
            }
        }
    }
}

/// The UTF-8 bytes of a text.
pub open spec fn utf8_of(s: Seq<char>) -> Seq<u8> {
    vstd::utf8::encode_utf8(s)
}

/// `std::str::from_utf8`, copied to a `String`.
#[verifier::external_body]
fn utf8_text(bytes: &[u8]) -> (r: Option<String>)
    ensures
        r is Some <==> valid_utf8(bytes@),
        r matches Some(s) ==> s@ == decode_utf8(bytes@),
{
    std::str::from_utf8(bytes).ok().map(|s| s.to_string())
}

/// Appends the UTF-8 bytes of `s`.
fn write_text(out: &mut Vec<u8>, s: &str)
    ensures
        final(out)@ == old(out)@ + utf8_of(s@),
{
    let b = s.as_bytes();
    let mut i: usize = 0;
    while i < b.len()
        invariant
            i <= b.len(),
            b@ == utf8_of(s@),
            out@ == old(out)@ + b@.take(i as int),
        decreases b.len() - i,
    {
        out.push(b[i]);
        i = i + 1;
        assert(b@.take(i as int) =~= b@.take((i - 1) as int).push(b@[i - 1]));
    }
    assert(b@.take(i as int) =~= b@);
}

/// Asks for an explicit `y` or `n` until one is given, reading answer lines
/// from `reader` and writing prompts to `writer`.
pub fn read_required_approval(reader: &[u8], writer: &mut Vec<u8>) -> (r: Result<bool, CliError>)
    ensures
        r == approval_from(reader@, 0).0,
        final(writer)@ == old(writer)@ + approval_from(reader@, 0).1,
{
    let mut i: usize = 0;
    let ghost mut w: Seq<u8> = seq![];
    loop
        invariant
            i <= reader@.len(),
            writer@ == old(writer)@ + w,
            approval_from(reader@, 0).0 == approval_from(reader@, i as int).0,
            approval_from(reader@, 0).1 == w + approval_from(reader@, i as int).1,
        decreases reader@.len() - i,
    {
        write_text(writer, "Approve? type y or n: ");
        proof {
            w = w + utf8_of(approve_prompt());
        }
        if i >= reader.len() {
            write_text(writer, "rejected\n");
            proof {
                assert(writer@ =~= old(writer)@ + (w + utf8_of("rejected\n"@)));
                assert(approval_from(reader@, 0).1 =~= w + utf8_of("rejected\n"@));
            }
            return Ok(false);
        }
        let mut k: usize = i;
        while k < reader.len() && reader[k] != 10u8
            invariant
                i <= k <= reader@.len(),
                line_end(reader@, i as int) == line_end(reader@, k as int),
            decreases reader@.len() - k,
        {
            k = k + 1;
        }
        let j: usize = if k < reader.len() {
            k + 1
        } else {
            k
        };
        assert(j as int == line_end(reader@, i as int));
        proof {
            lemma_line_end(reader@, i as int);
        }
        let line = vstd::slice::slice_subrange(reader, i, j);
        match utf8_text(line) {
            None => {
                assert(approval_from(reader@, 0).1 =~= w);
                return Err(CliError::InvalidUtf8);
            },
            Some(text) => {
                let t = trim_chars(&to_chars(text.as_str()));
                if is_text(&t, "y") || is_text(&t, "Y") || is_text(&t, "yes") || is_text(&t, "YES") {
                    assert(approval_from(reader@, 0).1 =~= w);
                    return Ok(true);
                }
                if is_text(&t, "n") || is_text(&t, "N") || is_text(&t, "no") || is_text(&t, "NO") {
                    assert(approval_from(reader@, 0).1 =~= w);
                    return Ok(false);
                }
                write_text(writer, "Please type y or n.\n");
                proof {
                    w = w + utf8_of("Please type y or n.\n"@);
                    assert(approval_from(reader@, 0).1 =~= w + approval_from(reader@, j as int).1);
                    assert(writer@ =~= old(writer)@ + w);
                }
                i = j;
            },
        }
    }
}

/// What one answer line decides, read as `read_required_approval` reads
/// each line: `None` for the end of input.
pub open spec fn answer_decision(line: Option<Seq<u8>>) -> (Option<Result<bool, CliError>>, Seq<char>) {
    match line {
        None => (Some(Ok(false)), "rejected\n"@),
        Some(l) => if !valid_utf8(l) {
            (Some(Err(CliError::InvalidUtf8)), seq![])
        } else if is_yes(trim(decode_utf8(l))) {
            (Some(Ok(true)), seq![])
        } else if is_no(trim(decode_utf8(l))) {
            (Some(Ok(false)), seq![])
        } else {
            (None, "Please type y or n.\n"@)
        },
    }
}

/// Reads one answer line to the approval prompt: the decision, or `None`
/// to ask again, and the text to write after it.
pub fn approval_step(line: Option<&[u8]>) -> (r: (Option<Result<bool, CliError>>, &'static str))
    ensures
        r.0 == answer_decision(
            match line {
                Some(l) => Some(l@),
                None => None,
            },
        ).0,
        r.1@ == answer_decision(
            match line {
                Some(l) => Some(l@),
                None => None,
            },
        ).1,
{
    proof {
        reveal_strlit("");
    }
    let l = match line {
        None => {
            return (Some(Ok(false)), "rejected\n");
        },
        Some(l) => l,
    };
    match utf8_text(l) {
        None => (Some(Err(CliError::InvalidUtf8)), ""),
        Some(text) => {
            let t = trim_chars(&to_chars(text.as_str()));
            if is_text(&t, "y") || is_text(&t, "Y") || is_text(&t, "yes") || is_text(&t, "YES") {
                (Some(Ok(true)), "")
            } else if is_text(&t, "n") || is_text(&t, "N") || is_text(&t, "no") || is_text(&t, "NO") {
                (Some(Ok(false)), "")
            } else {
                (None, "Please type y or n.\n")
            }
        },
    }
}

/// A blank answer, Enter alone, neither approves nor rejects: the prompt is
/// asked again.
pub proof fn law_blank_answer_asks_again(line: Seq<u8>)
    requires
        valid_utf8(line),
        trim(decode_utf8(line)).len() == 0,
    ensures
        answer_decision(Some(line)).0 is None,
{
    reveal_strlit("y");
    reveal_strlit("Y");
    reveal_strlit("yes");
    reveal_strlit("YES");
    reveal_strlit("n");
    reveal_strlit("N");
    reveal_strlit("no");
    reveal_strlit("NO");
}


/// A REPL line means what its trimmed text means: a blank line is empty, a
/// line that does not start with `/` is a prompt of its trimmed text, and an
/// unknown command is the trimmed line, which starts with `/`.
pub proof fn law_repl_line_reads_trimmed(line: Seq<char>)
    ensures
        repl_meaning(trim(line)) == repl_meaning(line),
        trim(line).len() == 0 ==> repl_meaning(line) == ReplSpec::Empty,
        trim(line).len() != 0 && !starts_with(trim(line), "/"@) ==> repl_meaning(line)
            == ReplSpec::Prompt(trim(line)),
        repl_meaning(line) matches ReplSpec::Unknown(u) ==> u == trim(line) && starts_with(u, "/"@),
{
    lemma_trim_idempotent(line);
}

/// Each backend's configuration name reads back as that backend.
pub proof fn law_backend_name_round_trip(k: BackendKind)
    ensures
        backend_of(crate::types::backend_name(k)) == Some(k),
{
    reveal_strlit("ollama");
    reveal_strlit("vllm");
    reveal_strlit("litellm");
    reveal_strlit("openai_compatible");
    let n = crate::types::backend_name(k);
    lemma_trim_fixed(n);
    assert(ascii_lower(n) =~= n);
}

/// The backend read from a name depends only on the name's trimmed text
/// with ASCII letters lower-cased: leading blanks and letter case change
/// nothing.
pub proof fn law_backend_ignores_case_and_padding(a: Seq<char>, b: Seq<char>)
    ensures
        ascii_lower(trim(a)) == ascii_lower(trim(b)) ==> backend_of(a) == backend_of(b),
        backend_of(seq![' '] + a) == backend_of(a),
{
    lemma_trim_space_prefix(a);
}

/// A reply whose trimmed text does not open a Markdown fence is read by the
/// front end exactly as the agent reads it.
pub proof fn law_fence_free_reply_reads_as_agent(s: Seq<char>)
    requires
        !starts_with(trim(s), "```"@),
    ensures
        fenced_body(s) is None,
        cli_reading(s) is Err <==> reading(s) is Err,
        reading(s) matches Ok(x) ==> cli_reading(s) == Ok::<(Seq<char>, Option<Fields>), CliError>((s, x)),
{
    reveal_strlit("```json");
    reveal_strlit("```");
    let t = trim(s);
    if starts_with(t, "```json"@) {
        assert(t.subrange(0, 3) =~= "```json"@.subrange(0, 3));
        assert("```json"@.subrange(0, 3) =~= "```"@);
    }
}

/// Where the answer line number `k` begins, counting lines from the start.
pub open spec fn answer_start(input: Seq<u8>, k: nat) -> int
    decreases k,
{
    if k == 0 {
        0
    } else {
        line_end(input, answer_start(input, (k - 1) as nat))
    }
}

/// The answer line number `k`.
pub open spec fn answer_line(input: Seq<u8>, k: nat) -> Seq<u8> {
    input.subrange(answer_start(input, k), line_end(input, answer_start(input, k)))
}

/// A line that is text and neither a yes nor a no: it is asked again.
pub open spec fn undecided(line: Seq<u8>) -> bool {
    valid_utf8(line) && !is_yes(trim(decode_utf8(line))) && !is_no(trim(decode_utf8(line)))
}

pub proof fn lemma_answer_start_bounds(input: Seq<u8>, k: nat)
    ensures
        0 <= answer_start(input, k),
        answer_start(input, k) <= input.len() || k == 0,
    decreases k,
{
    if k > 0 {
        lemma_answer_start_bounds(input, (k - 1) as nat);
        let i = answer_start(input, (k - 1) as nat);
        if 0 <= i < input.len() {
            lemma_line_end(input, i);
        }
    }
}

/// Whether each of the first `k` answer lines exists and is asked again.
pub open spec fn undecided_before(input: Seq<u8>, k: nat) -> bool
    decreases k,
{
    k == 0 || (undecided_before(input, (k - 1) as nat) && answer_start(input, (k - 1) as nat)
        < input.len() && undecided(answer_line(input, (k - 1) as nat)))
}

/// What is written for `k` answers that are asked again: the prompt and the
/// request for `y` or `n`, `k` times.
pub open spec fn retry_output(k: nat) -> Seq<u8>
    decreases k,
{
    if k == 0 {
        seq![]
    } else {
        retry_output((k - 1) as nat) + utf8_of(approve_prompt()) + utf8_of("Please type y or n.\n"@)
    }
}

/// The answers from line `k` on decide as the answers from line `0` do,
/// when every line before `k` is asked again.
proof fn lemma_undecided_lines_skip(input: Seq<u8>, k: nat)
    requires
        undecided_before(input, k),
    ensures
        approval_from(input, 0).0 == approval_from(input, answer_start(input, k)).0,
        approval_from(input, 0).1 == retry_output(k) + approval_from(input, answer_start(input, k)).1,
    decreases k,
{
    if k == 0 {
        assert(retry_output(0) + approval_from(input, 0).1 =~= approval_from(input, 0).1);
    } else {
        let m = (k - 1) as nat;
        lemma_answer_start_bounds(input, m);
        lemma_undecided_lines_skip(input, m);
        let i = answer_start(input, m);
        assert(answer_start(input, k) == line_end(input, i));
        assert(approval_from(input, i).0 == approval_from(input, line_end(input, i)).0);
        assert(approval_from(input, i).1 == utf8_of(approve_prompt()) + utf8_of("Please type y or n.\n"@)
            + approval_from(input, line_end(input, i)).1);
        assert(retry_output(m) + approval_from(input, i).1 =~= retry_output(k) + approval_from(
            input,
            answer_start(input, k),
        ).1);
    }
}

/// Approval is decided by the first line that is an explicit yes or no:
/// when the lines before line `k` are all asked again, the answer is what
/// line `k` decides, after `k + 1` prompts and `k` requests for `y` or `n`;
/// at the end of input it is a refusal, written as `rejected`.
pub proof fn law_first_decisive_line_decides(input: Seq<u8>, k: nat)
    requires
        undecided_before(input, k),
    ensures
        approval_from(input, 0).0 == approval_from(input, answer_start(input, k)).0,
        answer_start(input, k) >= input.len() ==> approval_from(input, 0).0 == Ok::<bool, CliError>(false),
        answer_start(input, k) < input.len() && valid_utf8(answer_line(input, k)) && is_yes(
            trim(decode_utf8(answer_line(input, k))),
        ) ==> approval_from(input, 0).0 == Ok::<bool, CliError>(true),
        answer_start(input, k) < input.len() && valid_utf8(answer_line(input, k)) && is_no(
            trim(decode_utf8(answer_line(input, k))),
        ) ==> approval_from(input, 0).0 == Ok::<bool, CliError>(false),
        answer_start(input, k) >= input.len() ==> approval_from(input, 0).1 == retry_output(k)
            + utf8_of(approve_prompt()) + utf8_of("rejected\n"@),
        answer_start(input, k) < input.len() && valid_utf8(answer_line(input, k)) && (is_yes(
            trim(decode_utf8(answer_line(input, k))),
        ) || is_no(trim(decode_utf8(answer_line(input, k))))) ==> approval_from(input, 0).1
            == retry_output(k) + utf8_of(approve_prompt()),
{
    reveal_strlit("y");
    reveal_strlit("Y");
    reveal_strlit("yes");
    reveal_strlit("YES");
    reveal_strlit("n");
    reveal_strlit("N");
    reveal_strlit("no");
    reveal_strlit("NO");
    lemma_undecided_lines_skip(input, k);
    lemma_answer_start_bounds(input, k);
    assert("n"@[0] != "y"@[0] && "n"@[0] != "Y"@[0] && "N"@[0] != "y"@[0] && "N"@[0] != "Y"@[0]);
    assert("no"@.len() != "yes"@.len() && "NO"@.len() != "YES"@.len());
    assert("no"@[0] != "y"@[0] && "no"@[0] != "Y"@[0] && "NO"@[0] != "y"@[0] && "NO"@[0] != "Y"@[0]);
    assert("n"@.len() != "yes"@.len() && "n"@.len() != "YES"@.len() && "N"@.len() != "yes"@.len()
        && "N"@.len() != "YES"@.len());
}

proof fn lemma_answer_words_distinct()
    ensures
        "y"@ != "n"@ && "y"@ != "N"@ && "Y"@ != "n"@ && "Y"@ != "N"@,
        "y"@ != "no"@ && "y"@ != "NO"@ && "Y"@ != "no"@ && "Y"@ != "NO"@,
        "yes"@ != "n"@ && "yes"@ != "N"@ && "YES"@ != "n"@ && "YES"@ != "N"@,
        "yes"@ != "no"@ && "yes"@ != "NO"@ && "YES"@ != "no"@ && "YES"@ != "NO"@,
{
    reveal_strlit("y");
    reveal_strlit("Y");
    reveal_strlit("yes");
    reveal_strlit("YES");
    reveal_strlit("n");
    reveal_strlit("N");
    reveal_strlit("no");
    reveal_strlit("NO");
    assert("n"@[0] != "y"@[0] && "n"@[0] != "Y"@[0] && "N"@[0] != "y"@[0] && "N"@[0] != "Y"@[0]);
    assert("no"@.len() != "yes"@.len() && "NO"@.len() != "YES"@.len());
    assert("no"@[0] != "y"@[0] && "no"@[0] != "Y"@[0] && "NO"@[0] != "y"@[0] && "NO"@[0] != "Y"@[0]);
    assert("n"@.len() != "yes"@.len() && "n"@.len() != "YES"@.len() && "N"@.len() != "yes"@.len()
        && "N"@.len() != "YES"@.len());
}

/// Law: an answer line whose trimmed text is `y`, `Y`, `yes` or `YES`
/// approves; one whose trimmed text is `n`, `N`, `no` or `NO` rejects; any
/// other text line (a blank one too) decides nothing and is asked again.
pub proof fn law_answer_words(line: Seq<u8>)
    requires
        valid_utf8(line),
    ensures
        trim(decode_utf8(line)) == "y"@ || trim(decode_utf8(line)) == "Y"@ || trim(decode_utf8(line))
            == "yes"@ || trim(decode_utf8(line)) == "YES"@ ==> answer_decision(Some(line)).0 == Some(
            Ok::<bool, CliError>(true),
        ),
        trim(decode_utf8(line)) == "n"@ || trim(decode_utf8(line)) == "N"@ || trim(decode_utf8(line))
            == "no"@ || trim(decode_utf8(line)) == "NO"@ ==> answer_decision(Some(line)).0 == Some(
            Ok::<bool, CliError>(false),
        ),
        trim(decode_utf8(line)) != "y"@ && trim(decode_utf8(line)) != "Y"@ && trim(decode_utf8(line))
            != "yes"@ && trim(decode_utf8(line)) != "YES"@ && trim(decode_utf8(line)) != "n"@ && trim(
            decode_utf8(line),
        ) != "N"@ && trim(decode_utf8(line)) != "no"@ && trim(decode_utf8(line)) != "NO"@
            ==> answer_decision(Some(line)).0 is None,
{
    lemma_answer_words_distinct();
}

/// Law: reading approval from input whose first line is text: a first line
/// of `y`, `Y`, `yes` or `YES` (trimmed) approves and one of `n`, `N`, `no`
/// or `NO` rejects, each after exactly one prompt.
pub proof fn law_first_answer_decides(input: Seq<u8>)
    requires
        input.len() > 0,
        valid_utf8(answer_line(input, 0)),
    ensures
        ({
            let t = trim(decode_utf8(answer_line(input, 0)));
            t == "YES"@ || t == "yes"@ || t == "Y"@ || t == "y"@
        }) ==> approval_from(input, 0) == (Ok::<bool, CliError>(true), utf8_of(approve_prompt())),
        ({
            let t = trim(decode_utf8(answer_line(input, 0)));
            t == "NO"@ || t == "no"@ || t == "N"@ || t == "n"@
        }) ==> approval_from(input, 0) == (Ok::<bool, CliError>(false), utf8_of(approve_prompt())),
{
    lemma_answer_words_distinct();
    assert(answer_start(input, 0) == 0);
}

proof fn lemma_plain_commands_distinct()
    ensures
        "/exit"@ != "/quit"@,
        "/exit"@ != "/help"@,
        "/exit"@ != "/prompts"@,
        "/exit"@ != "/settings"@,
        "/exit"@ != "/models"@,
        "/exit"@ != "/models list"@,
        "/exit"@ != "/model show"@,
        "/exit"@ != "/doctor"@,
        "/exit"@ != "/wiki list"@,
        "/exit"@ != "/lint wiki"@,
        "/exit"@ != "/log recent"@,
        "/exit"@ != "/sources"@,
        "/exit"@ != "/sources list"@,
        "/exit"@ != "/verify"@,
        "/exit"@ != "/review"@,
        "/exit"@ != "/tools"@,
        "/exit"@ != "/runs"@,
        "/exit"@ != "/last"@,
        "/exit"@ != "/retry"@,
        "/exit"@ != "/clear"@,
        "/quit"@ != "/help"@,
        "/quit"@ != "/prompts"@,
        "/quit"@ != "/settings"@,
        "/quit"@ != "/models"@,
        "/quit"@ != "/models list"@,
        "/quit"@ != "/model show"@,
        "/quit"@ != "/doctor"@,
        "/quit"@ != "/wiki list"@,
        "/quit"@ != "/lint wiki"@,
        "/quit"@ != "/log recent"@,
        "/quit"@ != "/sources"@,
        "/quit"@ != "/sources list"@,
        "/quit"@ != "/verify"@,
        "/quit"@ != "/review"@,
        "/quit"@ != "/tools"@,
        "/quit"@ != "/runs"@,
        "/quit"@ != "/last"@,
        "/quit"@ != "/retry"@,
        "/quit"@ != "/clear"@,
        "/help"@ != "/prompts"@,
        "/help"@ != "/settings"@,
        "/help"@ != "/models"@,
        "/help"@ != "/models list"@,
        "/help"@ != "/model show"@,
        "/help"@ != "/doctor"@,
        "/help"@ != "/wiki list"@,
        "/help"@ != "/lint wiki"@,
        "/help"@ != "/log recent"@,
        "/help"@ != "/sources"@,
        "/help"@ != "/sources list"@,
        "/help"@ != "/verify"@,
        "/help"@ != "/review"@,
        "/help"@ != "/tools"@,
        "/help"@ != "/runs"@,
        "/help"@ != "/last"@,
        "/help"@ != "/retry"@,
        "/help"@ != "/clear"@,
        "/prompts"@ != "/settings"@,
        "/prompts"@ != "/models"@,
        "/prompts"@ != "/models list"@,
        "/prompts"@ != "/model show"@,
        "/prompts"@ != "/doctor"@,
        "/prompts"@ != "/wiki list"@,
        "/prompts"@ != "/lint wiki"@,
        "/prompts"@ != "/log recent"@,
        "/prompts"@ != "/sources"@,
        "/prompts"@ != "/sources list"@,
        "/prompts"@ != "/verify"@,
        "/prompts"@ != "/review"@,
        "/prompts"@ != "/tools"@,
        "/prompts"@ != "/runs"@,
        "/prompts"@ != "/last"@,
        "/prompts"@ != "/retry"@,
        "/prompts"@ != "/clear"@,
        "/settings"@ != "/models"@,
        "/settings"@ != "/models list"@,
        "/settings"@ != "/model show"@,
        "/settings"@ != "/doctor"@,
        "/settings"@ != "/wiki list"@,
        "/settings"@ != "/lint wiki"@,
        "/settings"@ != "/log recent"@,
        "/settings"@ != "/sources"@,
        "/settings"@ != "/sources list"@,
        "/settings"@ != "/verify"@,
        "/settings"@ != "/review"@,
        "/settings"@ != "/tools"@,
        "/settings"@ != "/runs"@,
        "/settings"@ != "/last"@,
        "/settings"@ != "/retry"@,
        "/settings"@ != "/clear"@,
        "/models"@ != "/models list"@,
        "/models"@ != "/model show"@,
        "/models"@ != "/doctor"@,
        "/models"@ != "/wiki list"@,
        "/models"@ != "/lint wiki"@,
        "/models"@ != "/log recent"@,
        "/models"@ != "/sources"@,
        "/models"@ != "/sources list"@,
        "/models"@ != "/verify"@,
        "/models"@ != "/review"@,
        "/models"@ != "/tools"@,
        "/models"@ != "/runs"@,
        "/models"@ != "/last"@,
        "/models"@ != "/retry"@,
        "/models"@ != "/clear"@,
        "/models list"@ != "/model show"@,
        "/models list"@ != "/doctor"@,
        "/models list"@ != "/wiki list"@,
        "/models list"@ != "/lint wiki"@,
        "/models list"@ != "/log recent"@,
        "/models list"@ != "/sources"@,
        "/models list"@ != "/sources list"@,
        "/models list"@ != "/verify"@,
        "/models list"@ != "/review"@,
        "/models list"@ != "/tools"@,
        "/models list"@ != "/runs"@,
        "/models list"@ != "/last"@,
        "/models list"@ != "/retry"@,
        "/models list"@ != "/clear"@,
        "/model show"@ != "/doctor"@,
        "/model show"@ != "/wiki list"@,
        "/model show"@ != "/lint wiki"@,
        "/model show"@ != "/log recent"@,
        "/model show"@ != "/sources"@,
        "/model show"@ != "/sources list"@,
        "/model show"@ != "/verify"@,
        "/model show"@ != "/review"@,
        "/model show"@ != "/tools"@,
        "/model show"@ != "/runs"@,
        "/model show"@ != "/last"@,
        "/model show"@ != "/retry"@,
        "/model show"@ != "/clear"@,
        "/doctor"@ != "/wiki list"@,
        "/doctor"@ != "/lint wiki"@,
        "/doctor"@ != "/log recent"@,
        "/doctor"@ != "/sources"@,
        "/doctor"@ != "/sources list"@,
        "/doctor"@ != "/verify"@,
        "/doctor"@ != "/review"@,
        "/doctor"@ != "/tools"@,
        "/doctor"@ != "/runs"@,
        "/doctor"@ != "/last"@,
        "/doctor"@ != "/retry"@,
        "/doctor"@ != "/clear"@,
        "/wiki list"@ != "/lint wiki"@,
        "/wiki list"@ != "/log recent"@,
        "/wiki list"@ != "/sources"@,
        "/wiki list"@ != "/sources list"@,
        "/wiki list"@ != "/verify"@,
        "/wiki list"@ != "/review"@,
        "/wiki list"@ != "/tools"@,
        "/wiki list"@ != "/runs"@,
        "/wiki list"@ != "/last"@,
        "/wiki list"@ != "/retry"@,
        "/wiki list"@ != "/clear"@,
        "/lint wiki"@ != "/log recent"@,
        "/lint wiki"@ != "/sources"@,
        "/lint wiki"@ != "/sources list"@,
        "/lint wiki"@ != "/verify"@,
        "/lint wiki"@ != "/review"@,
        "/lint wiki"@ != "/tools"@,
        "/lint wiki"@ != "/runs"@,
        "/lint wiki"@ != "/last"@,
        "/lint wiki"@ != "/retry"@,
        "/lint wiki"@ != "/clear"@,
        "/log recent"@ != "/sources"@,
        "/log recent"@ != "/sources list"@,
        "/log recent"@ != "/verify"@,
        "/log recent"@ != "/review"@,
        "/log recent"@ != "/tools"@,
        "/log recent"@ != "/runs"@,
        "/log recent"@ != "/last"@,
        "/log recent"@ != "/retry"@,
        "/log recent"@ != "/clear"@,
        "/sources"@ != "/sources list"@,
        "/sources"@ != "/verify"@,
        "/sources"@ != "/review"@,
        "/sources"@ != "/tools"@,
        "/sources"@ != "/runs"@,
        "/sources"@ != "/last"@,
        "/sources"@ != "/retry"@,
        "/sources"@ != "/clear"@,
        "/sources list"@ != "/verify"@,
        "/sources list"@ != "/review"@,
        "/sources list"@ != "/tools"@,
        "/sources list"@ != "/runs"@,
        "/sources list"@ != "/last"@,
        "/sources list"@ != "/retry"@,
        "/sources list"@ != "/clear"@,
        "/verify"@ != "/review"@,
        "/verify"@ != "/tools"@,
        "/verify"@ != "/runs"@,
        "/verify"@ != "/last"@,
        "/verify"@ != "/retry"@,
        "/verify"@ != "/clear"@,
        "/review"@ != "/tools"@,
        "/review"@ != "/runs"@,
        "/review"@ != "/last"@,
        "/review"@ != "/retry"@,
        "/review"@ != "/clear"@,
        "/tools"@ != "/runs"@,
        "/tools"@ != "/last"@,
        "/tools"@ != "/retry"@,
        "/tools"@ != "/clear"@,
        "/runs"@ != "/last"@,
        "/runs"@ != "/retry"@,
        "/runs"@ != "/clear"@,
        "/last"@ != "/retry"@,
        "/last"@ != "/clear"@,
        "/retry"@ != "/clear"@,
{
    reveal_strlit("/exit");
    reveal_strlit("/quit");
    reveal_strlit("/help");
    reveal_strlit("/prompts");
    reveal_strlit("/settings");
    reveal_strlit("/models");
    reveal_strlit("/models list");
    reveal_strlit("/model show");
    reveal_strlit("/doctor");
    reveal_strlit("/wiki list");
    reveal_strlit("/lint wiki");
    reveal_strlit("/log recent");
    reveal_strlit("/sources");
    reveal_strlit("/sources list");
    reveal_strlit("/verify");
    reveal_strlit("/review");
    reveal_strlit("/tools");
    reveal_strlit("/runs");
    reveal_strlit("/last");
    reveal_strlit("/retry");
    reveal_strlit("/clear");
    assert("/exit"@[1] != "/quit"@[1]);
    assert("/exit"@[1] != "/help"@[1]);
    assert("/exit"@.len() != "/prompts"@.len());
    assert("/exit"@.len() != "/settings"@.len());
    assert("/exit"@.len() != "/models"@.len());
    assert("/exit"@.len() != "/models list"@.len());
    assert("/exit"@.len() != "/model show"@.len());
    assert("/exit"@.len() != "/doctor"@.len());
    assert("/exit"@.len() != "/wiki list"@.len());
    assert("/exit"@.len() != "/lint wiki"@.len());
    assert("/exit"@.len() != "/log recent"@.len());
    assert("/exit"@.len() != "/sources"@.len());
    assert("/exit"@.len() != "/sources list"@.len());
    assert("/exit"@.len() != "/verify"@.len());
    assert("/exit"@.len() != "/review"@.len());
    assert("/exit"@.len() != "/tools"@.len());
    assert("/exit"@[1] != "/runs"@[1]);
    assert("/exit"@[1] != "/last"@[1]);
    assert("/exit"@.len() != "/retry"@.len());
    assert("/exit"@.len() != "/clear"@.len());
    assert("/quit"@[1] != "/help"@[1]);
    assert("/quit"@.len() != "/prompts"@.len());
    assert("/quit"@.len() != "/settings"@.len());
    assert("/quit"@.len() != "/models"@.len());
    assert("/quit"@.len() != "/models list"@.len());
    assert("/quit"@.len() != "/model show"@.len());
    assert("/quit"@.len() != "/doctor"@.len());
    assert("/quit"@.len() != "/wiki list"@.len());
    assert("/quit"@.len() != "/lint wiki"@.len());
    assert("/quit"@.len() != "/log recent"@.len());
    assert("/quit"@.len() != "/sources"@.len());
    assert("/quit"@.len() != "/sources list"@.len());
    assert("/quit"@.len() != "/verify"@.len());
    assert("/quit"@.len() != "/review"@.len());
    assert("/quit"@.len() != "/tools"@.len());
    assert("/quit"@[1] != "/runs"@[1]);
    assert("/quit"@[1] != "/last"@[1]);
    assert("/quit"@.len() != "/retry"@.len());
    assert("/quit"@.len() != "/clear"@.len());
    assert("/help"@.len() != "/prompts"@.len());
    assert("/help"@.len() != "/settings"@.len());
    assert("/help"@.len() != "/models"@.len());
    assert("/help"@.len() != "/models list"@.len());
    assert("/help"@.len() != "/model show"@.len());
    assert("/help"@.len() != "/doctor"@.len());
    assert("/help"@.len() != "/wiki list"@.len());
    assert("/help"@.len() != "/lint wiki"@.len());
    assert("/help"@.len() != "/log recent"@.len());
    assert("/help"@.len() != "/sources"@.len());
    assert("/help"@.len() != "/sources list"@.len());
    assert("/help"@.len() != "/verify"@.len());
    assert("/help"@.len() != "/review"@.len());
    assert("/help"@.len() != "/tools"@.len());
    assert("/help"@[1] != "/runs"@[1]);
    assert("/help"@[1] != "/last"@[1]);
    assert("/help"@.len() != "/retry"@.len());
    assert("/help"@.len() != "/clear"@.len());
    assert("/prompts"@.len() != "/settings"@.len());
    assert("/prompts"@.len() != "/models"@.len());
    assert("/prompts"@.len() != "/models list"@.len());
    assert("/prompts"@.len() != "/model show"@.len());
    assert("/prompts"@.len() != "/doctor"@.len());
    assert("/prompts"@.len() != "/wiki list"@.len());
    assert("/prompts"@.len() != "/lint wiki"@.len());
    assert("/prompts"@.len() != "/log recent"@.len());
    assert("/prompts"@[1] != "/sources"@[1]);
    assert("/prompts"@.len() != "/sources list"@.len());
    assert("/prompts"@.len() != "/verify"@.len());
    assert("/prompts"@.len() != "/review"@.len());
    assert("/prompts"@.len() != "/tools"@.len());
    assert("/prompts"@.len() != "/runs"@.len());
    assert("/prompts"@.len() != "/last"@.len());
    assert("/prompts"@.len() != "/retry"@.len());
    assert("/prompts"@.len() != "/clear"@.len());
    assert("/settings"@.len() != "/models"@.len());
    assert("/settings"@.len() != "/models list"@.len());
    assert("/settings"@.len() != "/model show"@.len());
    assert("/settings"@.len() != "/doctor"@.len());
    assert("/settings"@.len() != "/wiki list"@.len());
    assert("/settings"@.len() != "/lint wiki"@.len());
    assert("/settings"@.len() != "/log recent"@.len());
    assert("/settings"@.len() != "/sources"@.len());
    assert("/settings"@.len() != "/sources list"@.len());
    assert("/settings"@.len() != "/verify"@.len());
    assert("/settings"@.len() != "/review"@.len());
    assert("/settings"@.len() != "/tools"@.len());
    assert("/settings"@.len() != "/runs"@.len());
    assert("/settings"@.len() != "/last"@.len());
    assert("/settings"@.len() != "/retry"@.len());
    assert("/settings"@.len() != "/clear"@.len());
    assert("/models"@.len() != "/models list"@.len());
    assert("/models"@.len() != "/model show"@.len());
    assert("/models"@[1] != "/doctor"@[1]);
    assert("/models"@.len() != "/wiki list"@.len());
    assert("/models"@.len() != "/lint wiki"@.len());
    assert("/models"@.len() != "/log recent"@.len());
    assert("/models"@.len() != "/sources"@.len());
    assert("/models"@.len() != "/sources list"@.len());
    assert("/models"@[1] != "/verify"@[1]);
    assert("/models"@[1] != "/review"@[1]);
    assert("/models"@.len() != "/tools"@.len());
    assert("/models"@.len() != "/runs"@.len());
    assert("/models"@.len() != "/last"@.len());
    assert("/models"@.len() != "/retry"@.len());
    assert("/models"@.len() != "/clear"@.len());
    assert("/models list"@.len() != "/model show"@.len());
    assert("/models list"@.len() != "/doctor"@.len());
    assert("/models list"@.len() != "/wiki list"@.len());
    assert("/models list"@.len() != "/lint wiki"@.len());
    assert("/models list"@.len() != "/log recent"@.len());
    assert("/models list"@.len() != "/sources"@.len());
    assert("/models list"@.len() != "/sources list"@.len());
    assert("/models list"@.len() != "/verify"@.len());
    assert("/models list"@.len() != "/review"@.len());
    assert("/models list"@.len() != "/tools"@.len());
    assert("/models list"@.len() != "/runs"@.len());
    assert("/models list"@.len() != "/last"@.len());
    assert("/models list"@.len() != "/retry"@.len());
    assert("/models list"@.len() != "/clear"@.len());
    assert("/model show"@.len() != "/doctor"@.len());
    assert("/model show"@.len() != "/wiki list"@.len());
    assert("/model show"@.len() != "/lint wiki"@.len());
    assert("/model show"@[1] != "/log recent"@[1]);
    assert("/model show"@.len() != "/sources"@.len());
    assert("/model show"@.len() != "/sources list"@.len());
    assert("/model show"@.len() != "/verify"@.len());
    assert("/model show"@.len() != "/review"@.len());
    assert("/model show"@.len() != "/tools"@.len());
    assert("/model show"@.len() != "/runs"@.len());
    assert("/model show"@.len() != "/last"@.len());
    assert("/model show"@.len() != "/retry"@.len());
    assert("/model show"@.len() != "/clear"@.len());
    assert("/doctor"@.len() != "/wiki list"@.len());
    assert("/doctor"@.len() != "/lint wiki"@.len());
    assert("/doctor"@.len() != "/log recent"@.len());
    assert("/doctor"@.len() != "/sources"@.len());
    assert("/doctor"@.len() != "/sources list"@.len());
    assert("/doctor"@[1] != "/verify"@[1]);
    assert("/doctor"@[1] != "/review"@[1]);
    assert("/doctor"@.len() != "/tools"@.len());
    assert("/doctor"@.len() != "/runs"@.len());
    assert("/doctor"@.len() != "/last"@.len());
    assert("/doctor"@.len() != "/retry"@.len());
    assert("/doctor"@.len() != "/clear"@.len());
    assert("/wiki list"@[1] != "/lint wiki"@[1]);
    assert("/wiki list"@.len() != "/log recent"@.len());
    assert("/wiki list"@.len() != "/sources"@.len());
    assert("/wiki list"@.len() != "/sources list"@.len());
    assert("/wiki list"@.len() != "/verify"@.len());
    assert("/wiki list"@.len() != "/review"@.len());
    assert("/wiki list"@.len() != "/tools"@.len());
    assert("/wiki list"@.len() != "/runs"@.len());
    assert("/wiki list"@.len() != "/last"@.len());
    assert("/wiki list"@.len() != "/retry"@.len());
    assert("/wiki list"@.len() != "/clear"@.len());
    assert("/lint wiki"@.len() != "/log recent"@.len());
    assert("/lint wiki"@.len() != "/sources"@.len());
    assert("/lint wiki"@.len() != "/sources list"@.len());
    assert("/lint wiki"@.len() != "/verify"@.len());
    assert("/lint wiki"@.len() != "/review"@.len());
    assert("/lint wiki"@.len() != "/tools"@.len());
    assert("/lint wiki"@.len() != "/runs"@.len());
    assert("/lint wiki"@.len() != "/last"@.len());
    assert("/lint wiki"@.len() != "/retry"@.len());
    assert("/lint wiki"@.len() != "/clear"@.len());
    assert("/log recent"@.len() != "/sources"@.len());
    assert("/log recent"@.len() != "/sources list"@.len());
    assert("/log recent"@.len() != "/verify"@.len());
    assert("/log recent"@.len() != "/review"@.len());
    assert("/log recent"@.len() != "/tools"@.len());
    assert("/log recent"@.len() != "/runs"@.len());
    assert("/log recent"@.len() != "/last"@.len());
    assert("/log recent"@.len() != "/retry"@.len());
    assert("/log recent"@.len() != "/clear"@.len());
    assert("/sources"@.len() != "/sources list"@.len());
    assert("/sources"@.len() != "/verify"@.len());
    assert("/sources"@.len() != "/review"@.len());
    assert("/sources"@.len() != "/tools"@.len());
    assert("/sources"@.len() != "/runs"@.len());
    assert("/sources"@.len() != "/last"@.len());
    assert("/sources"@.len() != "/retry"@.len());
    assert("/sources"@.len() != "/clear"@.len());
    assert("/sources list"@.len() != "/verify"@.len());
    assert("/sources list"@.len() != "/review"@.len());
    assert("/sources list"@.len() != "/tools"@.len());
    assert("/sources list"@.len() != "/runs"@.len());
    assert("/sources list"@.len() != "/last"@.len());
    assert("/sources list"@.len() != "/retry"@.len());
    assert("/sources list"@.len() != "/clear"@.len());
    assert("/verify"@[1] != "/review"@[1]);
    assert("/verify"@.len() != "/tools"@.len());
    assert("/verify"@.len() != "/runs"@.len());
    assert("/verify"@.len() != "/last"@.len());
    assert("/verify"@.len() != "/retry"@.len());
    assert("/verify"@.len() != "/clear"@.len());
    assert("/review"@.len() != "/tools"@.len());
    assert("/review"@.len() != "/runs"@.len());
    assert("/review"@.len() != "/last"@.len());
    assert("/review"@.len() != "/retry"@.len());
    assert("/review"@.len() != "/clear"@.len());
    assert("/tools"@.len() != "/runs"@.len());
    assert("/tools"@.len() != "/last"@.len());
    assert("/tools"@[1] != "/retry"@[1]);
    assert("/tools"@[1] != "/clear"@[1]);
    assert("/runs"@[1] != "/last"@[1]);
    assert("/runs"@.len() != "/retry"@.len());
    assert("/runs"@.len() != "/clear"@.len());
    assert("/last"@.len() != "/retry"@.len());
    assert("/last"@.len() != "/clear"@.len());
    assert("/retry"@[1] != "/clear"@[1]);
}

/// Law: each plain REPL command, typed with any surrounding blanks, means
/// its action: `/exit` and `/quit` leave; `/help`, `/prompts`, `/settings`,
/// `/models` (or `/models list`), `/model show`, `/doctor`, `/wiki list`,
/// `/lint wiki`, `/log recent`, `/sources` (or `/sources list`), `/verify`,
/// `/review`, `/tools`, `/runs`, `/last`, `/retry` and `/clear` each name
/// their own command.
pub proof fn law_plain_commands(line: Seq<char>)
    ensures
        trim(line) == "/quit"@ ==> repl_meaning(line) == ReplSpec::Exit,
        trim(line) == "/exit"@ ==> repl_meaning(line) == ReplSpec::Exit,
        trim(line) == "/help"@ ==> repl_meaning(line) == ReplSpec::Help,
        trim(line) == "/prompts"@ ==> repl_meaning(line) == ReplSpec::Prompts,
        trim(line) == "/settings"@ ==> repl_meaning(line) == ReplSpec::Settings,
        trim(line) == "/models list"@ ==> repl_meaning(line) == ReplSpec::Models,
        trim(line) == "/models"@ ==> repl_meaning(line) == ReplSpec::Models,
        trim(line) == "/model show"@ ==> repl_meaning(line) == ReplSpec::ModelShow,
        trim(line) == "/doctor"@ ==> repl_meaning(line) == ReplSpec::Doctor,
        trim(line) == "/wiki list"@ ==> repl_meaning(line) == ReplSpec::WikiList,
        trim(line) == "/lint wiki"@ ==> repl_meaning(line) == ReplSpec::LintWiki,
        trim(line) == "/log recent"@ ==> repl_meaning(line) == ReplSpec::LogRecent,
        trim(line) == "/sources list"@ ==> repl_meaning(line) == ReplSpec::Sources,
        trim(line) == "/sources"@ ==> repl_meaning(line) == ReplSpec::Sources,
        trim(line) == "/verify"@ ==> repl_meaning(line) == ReplSpec::Verify,
        trim(line) == "/review"@ ==> repl_meaning(line) == ReplSpec::Review,
        trim(line) == "/tools"@ ==> repl_meaning(line) == ReplSpec::Tools,
        trim(line) == "/runs"@ ==> repl_meaning(line) == ReplSpec::Runs,
        trim(line) == "/last"@ ==> repl_meaning(line) == ReplSpec::Last,
        trim(line) == "/retry"@ ==> repl_meaning(line) == ReplSpec::Retry,
        trim(line) == "/clear"@ ==> repl_meaning(line) == ReplSpec::Clear,
{
    reveal_strlit("/");
    lemma_plain_commands_distinct();
    let t = trim(line);
    if t.len() > 0 && t[0] == '/' {
        assert(t.subrange(0, 1) =~= "/"@);
    }
    reveal_strlit("/clear");
    reveal_strlit("/doctor");
    reveal_strlit("/exit");
    reveal_strlit("/help");
    reveal_strlit("/last");
    reveal_strlit("/lint wiki");
    reveal_strlit("/log recent");
    reveal_strlit("/model show");
    reveal_strlit("/models");
    reveal_strlit("/models list");
    reveal_strlit("/prompts");
    reveal_strlit("/quit");
    reveal_strlit("/retry");
    reveal_strlit("/review");
    reveal_strlit("/runs");
    reveal_strlit("/settings");
    reveal_strlit("/sources");
    reveal_strlit("/sources list");
    reveal_strlit("/tools");
    reveal_strlit("/verify");
    reveal_strlit("/wiki list");
}

/// Law: a backend name is read by its trimmed text with ASCII letters
/// lower-cased: `ollama`, `vllm` and `litellm` name those backends;
/// `openai_compatible`, `openai-compatible` and `custom` name an
/// OpenAI-compatible endpoint; anything else is unknown. Each backend's
/// configuration name is `ollama`, `vllm`, `litellm` or `openai_compatible`.
pub proof fn law_backend_names(name: Seq<char>, k: BackendKind)
    ensures
        ascii_lower(trim(name)) == "ollama"@ ==> backend_of(name) == Some(BackendKind::Ollama),
        ascii_lower(trim(name)) == "vllm"@ ==> backend_of(name) == Some(BackendKind::Vllm),
        ascii_lower(trim(name)) == "litellm"@ ==> backend_of(name) == Some(BackendKind::Litellm),
        ascii_lower(trim(name)) == "openai_compatible"@ || ascii_lower(trim(name)) == "openai-compatible"@
            || ascii_lower(trim(name)) == "custom"@ ==> backend_of(name) == Some(
            BackendKind::OpenAiCompatible,
        ),
        ascii_lower(trim(name)) != "ollama"@ && ascii_lower(trim(name)) != "vllm"@ && ascii_lower(
            trim(name),
        ) != "litellm"@ && ascii_lower(trim(name)) != "openai_compatible"@ && ascii_lower(trim(name))
            != "openai-compatible"@ && ascii_lower(trim(name)) != "custom"@ ==> backend_of(name) is None,
        k == BackendKind::Ollama ==> crate::types::backend_name(k) == "ollama"@,
        k == BackendKind::Vllm ==> crate::types::backend_name(k) == "vllm"@,
        k == BackendKind::Litellm ==> crate::types::backend_name(k) == "litellm"@,
        k == BackendKind::OpenAiCompatible ==> crate::types::backend_name(k) == "openai_compatible"@,
{
    reveal_strlit("ollama");
    reveal_strlit("vllm");
    reveal_strlit("litellm");
    reveal_strlit("openai_compatible");
    reveal_strlit("openai-compatible");
    reveal_strlit("custom");
    assert("ollama"@.len() == 6 && "vllm"@.len() == 4 && "litellm"@.len() == 7);
    assert("openai_compatible"@.len() == 17 && "openai-compatible"@.len() == 17 && "custom"@.len() == 6);
    assert("ollama"@[0] != "custom"@[0]);
    assert("openai_compatible"@[6] != "openai-compatible"@[6]);
}

/// Law: `/set KEY VALUE` (the key without spaces, the value not blank) sets
/// the base URL for `base-url` or `base_url`, the model for `model`, the API
/// key for `api-key` or `api_key` (cleared by `none` in any letter case),
/// the workspace for `workspace`, and the timeout for `timeout`,
/// `timeout-secs` or `timeout_secs` when the value is a number; any other key
/// is an unknown command.
pub proof fn law_set_keys(t: Seq<char>, key: Seq<char>, value: Seq<char>)
    requires
        !crate::text::has_char(key, ' '),
        trim(value).len() != 0,
    ensures
        key == "base-url"@ || key == "base_url"@ ==> set_meaning(t, key + seq![' '] + value)
            == ReplSpec::Setting(SettingSpec::BaseUrl(trim(value))),
        key == "model"@ ==> set_meaning(t, key + seq![' '] + value) == ReplSpec::Setting(
            SettingSpec::Model(trim(value)),
        ),
        (key == "api-key"@ || key == "api_key"@) && ascii_lower(trim(value)) == "none"@ ==> set_meaning(
            t,
            key + seq![' '] + value,
        ) == ReplSpec::Setting(SettingSpec::ApiKey(None)),
        (key == "api-key"@ || key == "api_key"@) && ascii_lower(trim(value)) != "none"@ ==> set_meaning(
            t,
            key + seq![' '] + value,
        ) == ReplSpec::Setting(SettingSpec::ApiKey(Some(trim(value)))),
        key == "workspace"@ ==> set_meaning(t, key + seq![' '] + value) == ReplSpec::Setting(
            SettingSpec::Workspace(trim(value)),
        ),
        (key == "timeout"@ || key == "timeout-secs"@ || key == "timeout_secs"@) && parse_u64(
            trim(value),
        ) is Some ==> set_meaning(t, key + seq![' '] + value) == ReplSpec::Setting(
            SettingSpec::TimeoutSecs(parse_u64(trim(value))->0),
        ),
        key != "base-url"@ && key != "base_url"@ && key != "model"@ && key != "api-key"@ && key != "api_key"@ && key != "workspace"@ && key != "timeout"@ && key != "timeout-secs"@ && key != "timeout_secs"@ ==> set_meaning(t, key + seq![' '] + value) == ReplSpec::Unknown(t),
{
    crate::text::lemma_split_once_at(key, ' ', value);
    reveal_strlit("base-url");
    reveal_strlit("base_url");
    reveal_strlit("model");
    reveal_strlit("api-key");
    reveal_strlit("api_key");
    reveal_strlit("workspace");
    reveal_strlit("timeout");
    reveal_strlit("timeout-secs");
    reveal_strlit("timeout_secs");
    assert("base-url"@[4] != "base_url"@[4]);
    assert("base-url"@.len() != "model"@.len());
    assert("base-url"@.len() != "api-key"@.len());
    assert("base-url"@.len() != "api_key"@.len());
    assert("base-url"@.len() != "workspace"@.len());
    assert("base-url"@.len() != "timeout"@.len());
    assert("base-url"@.len() != "timeout-secs"@.len());
    assert("base-url"@.len() != "timeout_secs"@.len());
    assert("base_url"@.len() != "model"@.len());
    assert("base_url"@.len() != "api-key"@.len());
    assert("base_url"@.len() != "api_key"@.len());
    assert("base_url"@.len() != "workspace"@.len());
    assert("base_url"@.len() != "timeout"@.len());
    assert("base_url"@.len() != "timeout-secs"@.len());
    assert("base_url"@.len() != "timeout_secs"@.len());
    assert("model"@.len() != "api-key"@.len());
    assert("model"@.len() != "api_key"@.len());
    assert("model"@.len() != "workspace"@.len());
    assert("model"@.len() != "timeout"@.len());
    assert("model"@.len() != "timeout-secs"@.len());
    assert("model"@.len() != "timeout_secs"@.len());
    assert("api-key"@[3] != "api_key"@[3]);
    assert("api-key"@.len() != "workspace"@.len());
    assert("api-key"@[0] != "timeout"@[0]);
    assert("api-key"@.len() != "timeout-secs"@.len());
    assert("api-key"@.len() != "timeout_secs"@.len());
    assert("api_key"@.len() != "workspace"@.len());
    assert("api_key"@[0] != "timeout"@[0]);
    assert("api_key"@.len() != "timeout-secs"@.len());
    assert("api_key"@.len() != "timeout_secs"@.len());
    assert("workspace"@.len() != "timeout"@.len());
    assert("workspace"@.len() != "timeout-secs"@.len());
    assert("workspace"@.len() != "timeout_secs"@.len());
    assert("timeout"@.len() != "timeout-secs"@.len());
    assert("timeout"@.len() != "timeout_secs"@.len());
    assert("timeout-secs"@[7] != "timeout_secs"@[7]);
}
} // verus!
