//! Reading the assistant's reply: a strict JSON command proposal, a proposal
//! embedded after some prose, or plain text.

use vstd::prelude::*;
use crate::text::{is_blank, owned, slice, string_of, to_chars, trim, trim_str};
use crate::types::{CommandProposal, RiskLevel};
use crate::json::{
    document_node, json_document_node, json_leading_node, leading_node, node_view, JsonNode, NodeView,
};

verus! {

/// The reply of the assistant: text to show, or a command to propose.
#[derive(Clone, Debug, PartialEq, Eq)]
pub enum AgentOutput {
    Text(String),
    Command(CommandProposal),
}

/// Why a reply could not be read.
#[derive(Clone, Copy, Debug, PartialEq, Eq, Structural)]
pub enum AgentError {
    Empty,
}

impl AgentError {
    /// The error's message.
    pub fn message(&self) -> (s: String)
        ensures
            s@ == "empty agent output"@,
    {
        owned("empty agent output")
    }
}

/// The `command`, `cwd` and `reason` strings of a proposal.
pub type Fields = (Seq<char>, Seq<char>, Seq<char>);

/// The plain values of three strings.
pub open spec fn fields_view(r: Option<(String, String, String)>) -> Option<Fields> {
    match r {
        Some((c, w, re)) => Some((c@, w@, re@)),
        None => None,
    }
}

/// The string at a pointer, as `node` shows the JSON value.
pub open spec fn text_node(node: spec_fn(Seq<char>) -> Option<NodeView>, pointer: Seq<char>) -> Option<Seq<char>> {
    match node(pointer) {
        Some(NodeView::Text(t)) => Some(t),
        _ => None,
    }
}

/// The proposal a JSON value holds, as `node` shows it at each pointer: an
/// object whose `command`, `cwd` and `reason` members are strings (other
/// members are ignored), or an array of exactly three strings in that
/// order; no proposal for anything else.
pub open spec fn proposal_fields(node: spec_fn(Seq<char>) -> Option<NodeView>) -> Option<Fields> {
    let (a, b, c) = match node(""@) {
        Some(NodeView::Object) => ("/command"@, "/cwd"@, "/reason"@),
        _ => ("/0"@, "/1"@, "/2"@),
    };
    let shaped = match node(""@) {
        Some(NodeView::Object) => true,
        Some(NodeView::Array(n)) => n == 3,
        _ => false,
    };
    if shaped && text_node(node, a) is Some && text_node(node, b) is Some && text_node(node, c) is Some {
        Some((text_node(node, a)->0, text_node(node, b)->0, text_node(node, c)->0))
    } else {
        None
    }
}

/// The proposal that a whole JSON document holds.
pub open spec fn json_document_fields(s: Seq<char>) -> Option<Fields> {
    proposal_fields(|p: Seq<char>| json_document_node(s, p))
}

/// The proposal that the first JSON value of a text holds.
pub open spec fn json_leading_fields(s: Seq<char>) -> Option<Fields> {
    proposal_fields(|p: Seq<char>| json_leading_node(s, p))
}

/// The node at `pointer` of the whole document, or of the leading value.
pub open spec fn node_in(text: Seq<char>, pointer: Seq<char>, leading: bool) -> Option<NodeView> {
    if leading {
        json_leading_node(text, pointer)
    } else {
        json_document_node(text, pointer)
    }
}

fn node_at(text: &str, pointer: &str, leading: bool) -> (r: Option<JsonNode>)
    ensures
        node_view(r) == node_in(text@, pointer@, leading),
{
    if leading {
        leading_node(text, pointer)
    } else {
        document_node(text, pointer)
    }
}

fn text_at(text: &str, pointer: &str, leading: bool) -> (r: Option<String>)
    ensures
        crate::text::opt_view(r) == text_node(|p: Seq<char>| node_in(text@, p, leading), pointer@),
{
    match node_at(text, pointer, leading) {
        Some(JsonNode::Text(t)) => Some(t),
        _ => None,
    }
}

/// The proposal held by the whole JSON document `text`, or by its leading
/// JSON value.
pub fn proposal_in(text: &str, leading: bool) -> (r: Option<(String, String, String)>)
    ensures
        fields_view(r) == proposal_fields(|p: Seq<char>| node_in(text@, p, leading)),
{
    let ghost node = |p: Seq<char>| node_in(text@, p, leading);
    let (a, b, c) = match node_at(text, "", leading) {
        Some(JsonNode::Object) => ("/command", "/cwd", "/reason"),
        Some(JsonNode::Array(n)) => {
            if n != 3 {
                return None;
            }
            ("/0", "/1", "/2")
        },
        _ => {
            return None;
        },
    };
    let x = text_at(text, a, leading);
    let y = text_at(text, b, leading);
    let z = text_at(text, c, leading);
    match (x, y, z) {
        (Some(cmd), Some(cwd), Some(reason)) => Some((cmd, cwd, reason)),
        _ => None,
    }
}

/// The proposal held by a whole JSON document.
pub fn document_proposal(text: &str) -> (r: Option<(String, String, String)>)
    ensures
        fields_view(r) == json_document_fields(text@),
{
    let r = proposal_in(text, false);
    assert((|p: Seq<char>| node_in(text@, p, false)) =~= (|p: Seq<char>| json_document_node(text@, p)));
    r
}

/// The proposal held by the first JSON value of a text.
pub fn leading_proposal(text: &str) -> (r: Option<(String, String, String)>)
    ensures
        fields_view(r) == json_leading_fields(text@),
{
    let r = proposal_in(text, true);
    assert((|p: Seq<char>| node_in(text@, p, true)) =~= (|p: Seq<char>| json_leading_node(text@, p)));
    r
}

/// Fields that make a proposal: the command is not blank.
pub open spec fn usable(f: Option<Fields>) -> bool {
    f matches Some(x) && trim(x.0).len() != 0
}

/// The fields of the first proposal embedded at a `{` at or after index `i`.
pub open spec fn embedded_from(s: Seq<char>, i: int) -> Option<Fields>
    decreases s.len() - i,
{
    if i < 0 || i >= s.len() {
        None
    } else if s[i] == '{' && usable(json_leading_fields(s.skip(i))) {
        json_leading_fields(s.skip(i))
    } else {
        embedded_from(s, i + 1)
    }
}

/// How a reply is read: `Err` for a blank reply; `Ok(Some(fields))` for a
/// proposal, read first from the whole trimmed reply as one JSON document
/// and else from the first `{` where a JSON proposal starts; `Ok(None)` when
/// the reply is plain text.
pub open spec fn reading(s: Seq<char>) -> Result<Option<Fields>, ()> {
    if trim(s).len() == 0 {
        Err(())
    } else if usable(json_document_fields(trim(s))) {
        Ok(json_document_fields(trim(s)))
    } else {
        Ok(embedded_from(s, 0))
    }
}

/// Whether an output is the reading `r` of the reply `s`.
pub open spec fn output_is(o: AgentOutput, s: Seq<char>, r: Option<Fields>) -> bool {
    match o {
        AgentOutput::Text(t) => r is None && t@ == s,
        AgentOutput::Command(p) => r == Some((p.command@, p.cwd@, p.reason@))
            && p.risk_level == RiskLevel::Low && p.requires_approval,
    }
}

/// A proposal from read fields, when its command is not blank.
pub fn proposal_from_fields(f: Option<(String, String, String)>) -> (r: Option<CommandProposal>)
    ensures
        r is Some <==> usable(fields_view(f)),
        r matches Some(p) ==> fields_view(f) == Some((p.command@, p.cwd@, p.reason@))
            && p.risk_level == RiskLevel::Low && p.requires_approval,
{
    match f {
        Some((command, cwd, reason)) => {
            if is_blank(command.as_str()) {
                None
            } else {
                Some(CommandProposal::new(command.as_str(), cwd.as_str(), reason.as_str()))
            }
        },
        None => None,
    }
}

/// Reads the assistant's reply.
pub fn parse_agent_output(input: &str) -> (r: Result<AgentOutput, AgentError>)
    ensures
        r is Err <==> reading(input@) is Err,
        r matches Ok(o) ==> reading(input@) matches Ok(x) && output_is(o, input@, x),
{
    if is_blank(input) {
        return Err(AgentError::Empty);
    }
    let trimmed = trim_str(input);
    if let Some(p) = proposal_from_fields(document_proposal(trimmed.as_str())) {
        return Ok(AgentOutput::Command(p));
    }
    let v = to_chars(input);
    let mut i: usize = 0;
    while i < v.len()
        invariant
            i <= v.len(),
            v@ == input@,
            trim(input@).len() != 0,
            !usable(json_document_fields(trim(input@))),
            embedded_from(v@, 0) == embedded_from(v@, i as int),
        decreases v.len() - i,
    {
        if v[i] == '{' {
            let rest = string_of(&slice(&v, i, v.len()));
            assert(rest@ =~= v@.skip(i as int));
            if let Some(p) = proposal_from_fields(leading_proposal(rest.as_str())) {
                return Ok(AgentOutput::Command(p));
            }
        }
        i = i + 1;
    }
    Ok(AgentOutput::Text(owned(input)))
}

} // verus!
