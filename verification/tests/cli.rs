use codesmith::agent::AgentOutput;
use codesmith::cli::{
    approval_hint, debug_workflow_prompt, parse_backend_kind, parse_cli_agent_output,
    parse_repl_line, plan_workflow_prompt, read_required_approval, tools_output, CliError,
    ReplCommand, SettingUpdate, compact_command, fenced_json_body, first_line,
    resolve_proposal_cwd, parse_command_proposal, prompt_for_model, trusted_workspaces_path,
    workspace_trust_prompt,
};
use codesmith::types::BackendKind;

#[test]
fn approval_hint_mentions_yes_flag() {
    assert_eq!(
        approval_hint(),
        "approval required: rerun with --yes to execute this allowed command"
    );
}

#[test]
fn approval_prompt_requires_explicit_yes_or_no() {
    let input = b"\nmaybe\ny\n";
    let mut output = Vec::new();

    let approved = read_required_approval(&input[..], &mut output)
        .expect("approval prompt should read a valid answer");

    assert!(approved);
    let output = String::from_utf8(output).expect("prompt output should be utf-8");
    assert!(output.contains("Approve? type y or n: "));
    assert_eq!(
        output.matches("Please type y or n.").count(),
        2,
        "blank and invalid input should both be rejected with a retry"
    );
}

#[test]
fn approval_prompt_accepts_explicit_no() {
    let mut output = Vec::new();

    let approved =
        read_required_approval(&b"n\n"[..], &mut output).expect("explicit no should parse");

    assert!(!approved);
}

#[test]
fn approval_prompt_rejects_at_end_of_input() {
    let mut output = Vec::new();
    let approved = read_required_approval(&b"maybe"[..], &mut output).unwrap();
    assert!(!approved);
    assert_eq!(
        String::from_utf8(output).unwrap(),
        "Approve? type y or n: Please type y or n.\nApprove? type y or n: rejected\n"
    );
    let mut output = Vec::new();
    assert_eq!(
        read_required_approval(&[0xff, b'\n'][..], &mut output),
        Err(CliError::InvalidUtf8)
    );
}

#[test]
fn repl_parser_recognizes_slash_commands_and_prompts() {
    assert_eq!(parse_repl_line(""), ReplCommand::Empty);
    assert_eq!(parse_repl_line("/exit"), ReplCommand::Exit);
    assert_eq!(parse_repl_line("/quit"), ReplCommand::Exit);
    assert_eq!(parse_repl_line("/help"), ReplCommand::Help);
    assert_eq!(parse_repl_line("/prompts"), ReplCommand::Prompts);
    assert_eq!(parse_repl_line("/settings"), ReplCommand::Settings);
    assert_eq!(
        parse_repl_line("/ingest file Cargo.toml"),
        ReplCommand::IngestFile("Cargo.toml".to_string())
    );
    assert_eq!(
        parse_repl_line("/ingest folder crates"),
        ReplCommand::IngestFolder("crates".to_string())
    );
    assert_eq!(
        parse_repl_line("/query cargo test"),
        ReplCommand::Query("cargo test".to_string())
    );
    assert_eq!(parse_repl_line("/lint wiki"), ReplCommand::LintWiki);
    assert_eq!(parse_repl_line("/log recent"), ReplCommand::LogRecent);
    assert_eq!(parse_repl_line("/sources"), ReplCommand::Sources);
    assert_eq!(
        parse_repl_line("/plan add safer tool workflow"),
        ReplCommand::Plan("add safer tool workflow".to_string())
    );
    assert_eq!(
        parse_repl_line("/debug python SyntaxError"),
        ReplCommand::Debug("python SyntaxError".to_string())
    );
    assert_eq!(parse_repl_line("/verify"), ReplCommand::Verify);
    assert_eq!(parse_repl_line("/review"), ReplCommand::Review);
    assert_eq!(parse_repl_line("/tools"), ReplCommand::Tools);
    assert_eq!(parse_repl_line("/runs"), ReplCommand::Runs);
    assert_eq!(parse_repl_line("/last"), ReplCommand::Last);
    assert_eq!(parse_repl_line("/retry"), ReplCommand::Retry);
    assert_eq!(parse_repl_line("/clear"), ReplCommand::Clear);
    assert_eq!(parse_repl_line("/models"), ReplCommand::Models);
    assert_eq!(parse_repl_line("/model show"), ReplCommand::ModelShow);
    assert_eq!(
        parse_repl_line("/model use qwen35-opus"),
        ReplCommand::ModelUse("qwen35-opus".to_string())
    );
    assert_eq!(
        parse_repl_line("/wiki search cu-run-ok"),
        ReplCommand::WikiSearch("cu-run-ok".to_string())
    );
    assert_eq!(
        parse_repl_line("hello"),
        ReplCommand::Prompt("hello".to_string())
    );
}

#[test]
fn repl_parser_recognizes_all_setting_updates() {
    assert_eq!(
        parse_repl_line("/set base-url http://localhost:11434/v1"),
        ReplCommand::Setting(SettingUpdate::BaseUrl(
            "http://localhost:11434/v1".to_string()
        ))
    );
    assert_eq!(
        parse_repl_line("/set model gemma4:e4b-mlx-bf16"),
        ReplCommand::Setting(SettingUpdate::Model("gemma4:e4b-mlx-bf16".to_string()))
    );
    assert_eq!(
        parse_repl_line("/set api-key none"),
        ReplCommand::Setting(SettingUpdate::ApiKey(None))
    );
    assert_eq!(
        parse_repl_line("/set workspace /Users/gim-yonghyeon/CodeSmith"),
        ReplCommand::Setting(SettingUpdate::Workspace(
            "/Users/gim-yonghyeon/CodeSmith".to_string()
        ))
    );
    assert_eq!(
        parse_repl_line("/set timeout 30"),
        ReplCommand::Setting(SettingUpdate::TimeoutSecs(30))
    );
}

#[test]
fn repl_parser_rejects_incomplete_and_unknown_commands() {
    assert_eq!(
        parse_repl_line("  /query   "),
        ReplCommand::Unknown("/query".to_string())
    );
    assert_eq!(
        parse_repl_line("/set timeout soon"),
        ReplCommand::Unknown("/set timeout soon".to_string())
    );
    assert_eq!(
        parse_repl_line("/set colour blue"),
        ReplCommand::Unknown("/set colour blue".to_string())
    );
    assert_eq!(
        parse_repl_line("/set api-key NoNe"),
        ReplCommand::Setting(SettingUpdate::ApiKey(None))
    );
    assert_eq!(
        parse_repl_line("/set api_key sk-1"),
        ReplCommand::Setting(SettingUpdate::ApiKey(Some("sk-1".to_string())))
    );
    assert_eq!(
        parse_repl_line("/set timeout +7"),
        ReplCommand::Setting(SettingUpdate::TimeoutSecs(7))
    );
    assert_eq!(
        parse_repl_line("/set timeout 18446744073709551616"),
        ReplCommand::Unknown("/set timeout 18446744073709551616".to_string())
    );
    assert_eq!(
        parse_repl_line("  explain this  "),
        ReplCommand::Prompt("explain this".to_string())
    );
}

#[test]
fn tools_output_includes_superpowers_style_tool_policy() {
    let output = tools_output();

    assert!(output.contains("plan before implementing"));
    assert!(output.contains("debug before fixing"));
    assert!(output.contains("verify before completion claims"));
    assert!(output.contains("read-only commands before mutating commands"));
}

#[test]
fn workflow_prompts_encode_plan_and_debug_shapes() {
    let plan = plan_workflow_prompt("add a feature");
    let debug = debug_workflow_prompt("python SyntaxError");

    assert!(plan.contains("success criteria"));
    assert!(plan.contains("verification commands"));
    assert!(debug.contains("reproduction steps"));
    assert!(debug.contains("root cause"));
    assert!(debug.contains("next safest diagnostic"));
}

#[test]
fn cli_agent_output_accepts_fenced_json_proposal() {
    let output = "```json\n{\"command\":\"printf fenced\",\"cwd\":\"/Users/gim-yonghyeon/CodeSmith\",\"reason\":\"test\"}\n```";

    let parsed = parse_cli_agent_output(output).expect("fenced json should parse");

    match parsed {
        AgentOutput::Command(proposal) => {
            assert_eq!(proposal.command, "printf fenced");
            assert_eq!(proposal.reason, "test");
        }
        AgentOutput::Text(_) => panic!("expected command proposal"),
    }
}

#[test]
fn fenced_body_and_proposal_errors() {
    assert_eq!(fenced_json_body("```\n{}\n```"), Some("{}".to_string()));
    assert_eq!(fenced_json_body("```json {} "), None);
    assert_eq!(parse_cli_agent_output(""), Err(CliError::ParseAgentOutput));
    assert_eq!(
        parse_cli_agent_output("```json\n```"),
        Err(CliError::ParseFencedAgentOutput)
    );
    assert_eq!(
        parse_command_proposal("just words"),
        Err(CliError::NotAProposal)
    );
    assert_eq!(CliError::NotAProposal.message(), "input is not a strict command proposal JSON");
}

#[test]
fn backend_names_and_prompts() {
    assert_eq!(parse_backend_kind(" VLLM "), Ok(BackendKind::Vllm));
    assert_eq!(parse_backend_kind("custom"), Ok(BackendKind::OpenAiCompatible));
    let err = parse_backend_kind("Mystery").unwrap_err();
    assert_eq!(err.message(), "unknown backend kind: mystery");
    assert!(prompt_for_model("gag0/qwen35-opus-distil:27b").contains("Do not use Markdown fences"));
    assert!(prompt_for_model("other").contains("execution-only"));
}

#[test]
fn small_text_helpers() {
    assert_eq!(compact_command("abcdef", 4), "abc…");
    assert_eq!(compact_command("abc", 4), "abc");
    assert_eq!(first_line("one\r\ntwo"), "one");
    assert_eq!(first_line(""), "");
    assert_eq!(resolve_proposal_cwd(".", "/w"), "/w/.");
    assert_eq!(resolve_proposal_cwd("/abs", "/w"), "/abs");
    assert_eq!(trusted_workspaces_path("/home/u/.codesmith"), "/home/u/.codesmith/trusted-workspaces.txt");
    assert!(workspace_trust_prompt("/w").starts_with("Trust this workspace?\n/w\n"));
}

#[test]
fn backend_names_read_back_whatever_the_case_or_padding() {
    for kind in [
        BackendKind::Ollama,
        BackendKind::Vllm,
        BackendKind::Litellm,
        BackendKind::OpenAiCompatible,
    ] {
        assert_eq!(parse_backend_kind(kind.as_str()), Ok(kind));
        let shouted = format!("  {}  ", kind.as_str().to_ascii_uppercase());
        assert_eq!(parse_backend_kind(&shouted), Ok(kind));
    }
}

#[test]
fn the_first_explicit_answer_decides() {
    let mut out = Vec::new();
    let r = read_required_approval(b"maybe\n\n  yes \nno\n", &mut out);
    assert_eq!(r, Ok(true));
    let text = String::from_utf8(out).unwrap();
    assert_eq!(text.matches("Approve? type y or n: ").count(), 3);
    assert_eq!(text.matches("Please type y or n.").count(), 2);

    let mut out = Vec::new();
    assert_eq!(read_required_approval(b"later\n", &mut out), Ok(false));
    assert!(String::from_utf8(out).unwrap().ends_with("rejected\n"));
}

#[test]
fn repl_lines_read_as_their_trimmed_text() {
    assert_eq!(parse_repl_line("  /help  "), parse_repl_line("/help"));
    assert_eq!(parse_repl_line(" \t "), ReplCommand::Empty);
    assert_eq!(parse_repl_line("  fix the build  "), ReplCommand::Prompt("fix the build".to_string()));
}
