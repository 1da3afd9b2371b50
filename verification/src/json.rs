//! Looking into a JSON document through serde_json: the kind of the value
//! that stands at a JSON pointer, with the text of a string or number and
//! the length of an array. What a reply or a stream chunk means is read
//! from these values by the modules that use them.

use vstd::prelude::*;

verus! {

/// The value at a place in a JSON document: its kind, the text of a string
/// or a number, and the length of an array.
#[derive(Clone, Debug, PartialEq, Eq)]
pub enum JsonNode {
    Null,
    Bool(bool),
    Number(String),
    Text(String),
    Array(usize),
    Object,
}

/// A JSON value's kind as plain values.
pub enum NodeView {
    Null,
    Bool(bool),
    Number(Seq<char>),
    Text(Seq<char>),
    Array(nat),
    Object,
}

impl View for JsonNode {
    type V = NodeView;

    open spec fn view(&self) -> NodeView {
        match self {
            JsonNode::Null => NodeView::Null,
            JsonNode::Bool(b) => NodeView::Bool(*b),
            JsonNode::Number(n) => NodeView::Number(n@),
            JsonNode::Text(t) => NodeView::Text(t@),
            JsonNode::Array(n) => NodeView::Array(*n as nat),
            JsonNode::Object => NodeView::Object,
        }
    }
}

/// The plain value of a looked-up node.
pub open spec fn node_view(r: Option<JsonNode>) -> Option<NodeView> {
    match r {
        Some(n) => Some(n@),
        None => None,
    }
}

/// What `serde_json::from_str` to a `serde_json::Value`, then
/// `Value::pointer`, gives for a text and a JSON pointer: the kind of the
/// value there, or `None` when the text is not one JSON document or nothing
/// stands at the pointer.
pub uninterp spec fn json_document_node(doc: Seq<char>, pointer: Seq<char>) -> Option<NodeView>;

/// The same for the first JSON value at the start of a text, read by a
/// `serde_json::StreamDeserializer`, with anything after it left unread.
pub uninterp spec fn json_leading_node(text: Seq<char>, pointer: Seq<char>) -> Option<NodeView>;

/// `serde_json::from_str` to a `serde_json::Value` and `Value::pointer`:
/// the kind of the value at `pointer`.
#[verifier::external_body]
pub(crate) fn document_node(doc: &str, pointer: &str) -> (r: Option<JsonNode>)
    ensures
        node_view(r) == json_document_node(doc@, pointer@),
{
    let value: serde_json::Value = serde_json::from_str(doc).ok()?;
    Some(match value.pointer(pointer)? {
        serde_json::Value::Null => JsonNode::Null,
        serde_json::Value::Bool(b) => JsonNode::Bool(*b),
        serde_json::Value::Number(n) => JsonNode::Number(n.to_string()),
        serde_json::Value::String(s) => JsonNode::Text(s.clone()),
        serde_json::Value::Array(a) => JsonNode::Array(a.len()),
        serde_json::Value::Object(_) => JsonNode::Object,
    })
}

/// The first value of a `serde_json::StreamDeserializer` over `text`, a
/// `serde_json::Value`, and `Value::pointer`: the kind of the value at
/// `pointer`.
#[verifier::external_body]
pub(crate) fn leading_node(text: &str, pointer: &str) -> (r: Option<JsonNode>)
    ensures
        node_view(r) == json_leading_node(text@, pointer@),
{
    let mut stream = serde_json::Deserializer::from_str(text).into_iter::<serde_json::Value>();
    let value = stream.next()?.ok()?;
    Some(match value.pointer(pointer)? {
        serde_json::Value::Null => JsonNode::Null,
        serde_json::Value::Bool(b) => JsonNode::Bool(*b),
        serde_json::Value::Number(n) => JsonNode::Number(n.to_string()),
        serde_json::Value::String(s) => JsonNode::Text(s.clone()),
        serde_json::Value::Array(a) => JsonNode::Array(a.len()),
        serde_json::Value::Object(_) => JsonNode::Object,
    })
}

} // verus!
