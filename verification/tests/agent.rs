use codesmith::agent::proposal_from_fields;
use codesmith::agent::{parse_agent_output, AgentError, AgentOutput};

#[test]
fn parses_strict_command_proposal_json() {
    let parsed = parse_agent_output(
        r#"{"command":"echo hello","cwd":"/tmp","reason":"inspect greeting"}"#,
    )
    .expect("parse should not error");

    match parsed {
        AgentOutput::Command(proposal) => {
            assert_eq!(proposal.command, "echo hello");
            assert_eq!(proposal.cwd, "/tmp");
            assert_eq!(proposal.reason, "inspect greeting");
            assert!(proposal.requires_approval);
        }
        AgentOutput::Text(_) => panic!("expected command proposal"),
    }
}

#[test]
fn treats_malformed_json_as_text() {
    let input = r#"{"command":"echo hello", "#;
    let parsed = parse_agent_output(input).expect("malformed json should become text");
    assert_eq!(parsed, AgentOutput::Text(input.to_string()));
}

#[test]
fn treats_non_proposal_json_as_text() {
    let input = r#"{"message":"hello"}"#;
    let parsed = parse_agent_output(input).expect("non proposal json should become text");
    assert_eq!(parsed, AgentOutput::Text(input.to_string()));
}

#[test]
fn parses_command_proposal_embedded_after_explanation() {
    let input = r#"I will create the file first.

{"command":"printf ok","cwd":".","reason":"create a smoke file"}"#;
    let parsed = parse_agent_output(input).expect("embedded proposal should parse");

    match parsed {
        AgentOutput::Command(proposal) => {
            assert_eq!(proposal.command, "printf ok");
            assert_eq!(proposal.cwd, ".");
            assert_eq!(proposal.reason, "create a smoke file");
        }
        AgentOutput::Text(_) => panic!("expected embedded command proposal"),
    }
}

#[test]
fn blank_output_is_an_empty_error() {
    assert_eq!(parse_agent_output("  \n\t "), Err(AgentError::Empty));
    assert_eq!(AgentError::Empty.message(), "empty agent output");
}

#[test]
fn proposal_with_blank_command_is_text() {
    let input = r#"{"command":"   ","cwd":"/tmp","reason":"nothing"}"#;
    assert_eq!(
        parse_agent_output(input).unwrap(),
        AgentOutput::Text(input.to_string())
    );
}

#[test]
fn embedded_proposal_is_found_after_a_non_proposal_object() {
    let input = r#"note {"x":1} then {"command":"ls","cwd":"/w","reason":"list"} done"#;
    match parse_agent_output(input).unwrap() {
        AgentOutput::Command(p) => {
            assert_eq!(p.command, "ls");
            assert_eq!(p.cwd, "/w");
        }
        other => panic!("unexpected {other:?}"),
    }
}

#[test]
fn read_fields_become_proposals_unless_the_command_is_blank() {
    let p = proposal_from_fields(Some(("ls".to_string(), "/w".to_string(), "look".to_string()))).unwrap();
    assert_eq!((p.command.as_str(), p.cwd.as_str(), p.reason.as_str()), ("ls", "/w", "look"));
    assert!(proposal_from_fields(Some((" ".to_string(), "/w".to_string(), "r".to_string()))).is_none());
    assert!(proposal_from_fields(None).is_none());
}

#[test]
fn reads_a_proposal_written_as_an_array_of_three_strings() {
    match parse_agent_output("[\"ls\", \".\", \"look\"]").unwrap() {
        AgentOutput::Command(p) => {
            assert_eq!(p.command, "ls");
            assert_eq!(p.cwd, ".");
            assert_eq!(p.reason, "look");
        }
        other => panic!("expected a command, got {:?}", other),
    }
    assert!(matches!(parse_agent_output("[\"ls\", \".\"]").unwrap(), AgentOutput::Text(_)));
    assert!(matches!(parse_agent_output("{\"command\": \"ls\", \"cwd\": 5, \"reason\": \"r\"}").unwrap(), AgentOutput::Text(_)));
}
