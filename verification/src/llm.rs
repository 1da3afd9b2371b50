//! The parts of talking to an OpenAI-compatible endpoint that decide
//! something: endpoint URLs, the bearer key, how a server-sent event stream
//! is cut into lines and which lines carry data, and the model check.

use vstd::prelude::*;
use crate::text::{
    is_text, owned, split, split_chars, str_eq, string_of, strip_prefix, strip_prefix_lit, to_chars,
    trim, trim_chars, views, decimal, u64_text,
};
use crate::json::{document_node, json_document_node, JsonNode, NodeView};

verus! {

/// The length of `s[..j]` once its trailing `/` are removed.
pub open spec fn slash_run_start(s: Seq<char>, j: int) -> int
    decreases j,
{
    if 0 < j <= s.len() && s[j - 1] == '/' {
        slash_run_start(s, j - 1)
    } else {
        j
    }
}

/// `s` without its trailing `/` (`str::trim_end_matches('/')`).
pub open spec fn without_trailing_slashes(s: Seq<char>) -> Seq<char> {
    s.take(slash_run_start(s, s.len() as int))
}

proof fn lemma_slash_run_start(s: Seq<char>, j: int)
    requires
        0 <= j <= s.len(),
    ensures
        0 <= slash_run_start(s, j) <= j,
    decreases j,
{
    if 0 < j && s[j - 1] == '/' {
        lemma_slash_run_start(s, j - 1);
    }
}

fn trimmed_base(base: &str) -> (r: String)
    ensures
        r@ == without_trailing_slashes(base@),
{
    let v = to_chars(base);
    let mut j: usize = v.len();
    while j > 0 && v[j - 1] == '/'
        invariant
            j <= v.len(),
            slash_run_start(v@, v@.len() as int) == slash_run_start(v@, j as int),
        decreases j,
    {
        j = j - 1;
    }
    let w = crate::text::slice(&v, 0, j);
    assert(w@ =~= v@.take(j as int));
    string_of(&w)
}

/// The chat completions endpoint under a base URL.
pub fn chat_completions_url(base: &str) -> (r: String)
    ensures
        r@ == without_trailing_slashes(base@) + "/chat/completions"@,
{
    let mut r = trimmed_base(base);
    r.append("/chat/completions");
    r
}

/// The model list endpoint under a base URL.
pub fn models_url(base: &str) -> (r: String)
    ensures
        r@ == without_trailing_slashes(base@) + "/models"@,
{
    let mut r = trimmed_base(base);
    r.append("/models");
    r
}

/// The key sent as a bearer token: the API key, unless it is missing or
/// empty.
pub fn bearer_key(api_key: &Option<String>) -> (r: Option<String>)
    ensures
        match api_key {
            Some(k) => if k@.len() > 0 {
                r matches Some(s) && s@ == k@
            } else {
                r is None
            },
            None => r is None,
        },
{
    match api_key {
        Some(k) => {
            if to_chars(k.as_str()).len() > 0 {
                Some(k.clone())
            } else {
                None
            }
        },
        None => None,
    }
}

/// The complete lines of a stream buffer, each trimmed, and what follows
/// the last line break.
pub open spec fn sse_lines(pending: Seq<char>) -> (Seq<Seq<char>>, Seq<char>) {
    let parts = split(pending, '\n');
    (parts.drop_last().map_values(|p: Seq<char>| trim(p)), parts.last())
}

/// Cuts a stream buffer into its complete lines, trimmed, and the rest.
pub fn take_sse_lines(pending: &str) -> (r: (Vec<String>, String))
    ensures
        r.0@.map_values(|s: String| s@) == sse_lines(pending@).0,
        r.1@ == sse_lines(pending@).1,
{
    let parts = split_chars(&to_chars(pending), '\n');
    let ghost pv = split(pending@, '\n');
    let mut out: Vec<String> = Vec::new();
    let mut i: usize = 0;
    while i + 1 < parts.len()
        invariant
            i + 1 <= parts.len(),
            views(parts@) == pv,
            out@.map_values(|s: String| s@) == pv.take(i as int).map_values(|p: Seq<char>| trim(p)),
        decreases parts.len() - i,
    {
        assert(pv[i as int] == parts@[i as int]@);
        let t = trim_chars(&parts[i]);
        let ghost before = out@.map_values(|s: String| s@);
        out.push(string_of(&t));
        assert(out@.map_values(|s: String| s@) =~= before.push(trim(pv[i as int])));
        assert(out@.map_values(|s: String| s@) =~= pv.take(i + 1).map_values(|p: Seq<char>| trim(p)));
        i = i + 1;
    }
    assert(pv.take(i as int) =~= pv.drop_last());
    assert(pv.last() == parts@[i as int]@);
    (out, string_of(&parts[i]))
}

/// The data of a stream line: what follows `data:`, trimmed, unless it is
/// the end marker `[DONE]`; lines without `data:` carry none.
pub open spec fn sse_data(line: Seq<char>) -> Option<Seq<char>> {
    match strip_prefix(line, "data:"@) {
        None => None,
        Some(d) => if trim(d) == "[DONE]"@ {
            None
        } else {
            Some(trim(d))
        },
    }
}

/// The data of a stream line, when it carries a chunk to read.
pub fn sse_payload(line: &str) -> (r: Option<String>)
    ensures
        r matches Some(s) ==> sse_data(line@) == Some(s@),
        r is None ==> sse_data(line@) is None,
{
    let v = to_chars(line);
    match strip_prefix_lit(&v, "data:") {
        None => None,
        Some(d) => {
            let t = trim_chars(&d);
            if is_text(&t, "[DONE]") {
                None
            } else {
                Some(string_of(&t))
            }
        },
    }
}

/// The text of a chunk: the first choice whose delta has content.
pub open spec fn first_content(contents: Seq<Option<Seq<char>>>) -> Option<Seq<char>>
    decreases contents.len(),
{
    if contents.len() == 0 {
        None
    } else {
        match contents[0] {
            Some(c) => Some(c),
            None => first_content(contents.drop_first()),
        }
    }
}

/// The text of a chunk, from its choices' delta contents.
pub fn chunk_text(contents: &Vec<Option<String>>) -> (r: Option<String>)
    ensures
        r matches Some(s) ==> first_content(contents@.map_values(|o: Option<String>| crate::text::opt_view(o))) == Some(s@),
        r is None ==> first_content(contents@.map_values(|o: Option<String>| crate::text::opt_view(o))) is None,
{
    let ghost cv = contents@.map_values(|o: Option<String>| crate::text::opt_view(o));
    assert(cv.skip(0) =~= cv);
    let mut i: usize = 0;
    while i < contents.len()
        invariant
            i <= contents.len(),
            cv == contents@.map_values(|o: Option<String>| crate::text::opt_view(o)),
            first_content(cv) == first_content(cv.skip(i as int)),
        decreases contents.len() - i,
    {
        assert(cv.skip(i as int)[0] == crate::text::opt_view(contents@[i as int]));
        assert(cv.skip(i as int).drop_first() =~= cv.skip(i + 1));
        match &contents[i] {
            Some(c) => {
                return Some(c.clone());
            },
            None => {},
        }
        i = i + 1;
    }
    assert(cv.skip(i as int) =~= Seq::<Option<Seq<char>>>::empty());
    None
}

/// Where a chunk's `choices` stand: the `choices` member of an object, or
/// the one element of an array; `None` when the chunk has neither.
pub open spec fn choices_pointer(d: Seq<char>) -> Option<Seq<char>> {
    match json_document_node(d, ""@) {
        Some(NodeView::Object) => if json_document_node(d, "/choices"@) is Some {
            Some("/choices"@)
        } else {
            None
        },
        Some(NodeView::Array(n)) => if n == 1 {
            Some("/0"@)
        } else {
            None
        },
        _ => None,
    }
}

/// Where the `delta` of the choice at `c` stands: its `delta` member, or
/// the one element of an array; `None` when the choice has neither.
pub open spec fn delta_pointer(d: Seq<char>, c: Seq<char>) -> Option<Seq<char>> {
    match json_document_node(d, c) {
        Some(NodeView::Object) => if json_document_node(d, c + "/delta"@) is Some {
            Some(c + "/delta"@)
        } else {
            None
        },
        Some(NodeView::Array(n)) => if n == 1 {
            Some(c + "/0"@)
        } else {
            None
        },
        _ => None,
    }
}

/// The content of the delta at `dp`: `Some(None)` for a missing or null
/// content, `Some(Some(text))` for a string, and `None` (the chunk cannot
/// be read) for any other value or a delta that is neither an object nor an
/// array of one element.
pub open spec fn delta_content(d: Seq<char>, dp: Seq<char>) -> Option<Option<Seq<char>>> {
    match json_document_node(d, dp) {
        Some(NodeView::Object) => match json_document_node(d, dp + "/content"@) {
            None => Some(None),
            Some(NodeView::Null) => Some(None),
            Some(NodeView::Text(t)) => Some(Some(t)),
            _ => None,
        },
        Some(NodeView::Array(n)) => if n == 1 {
            match json_document_node(d, dp + "/0"@) {
                Some(NodeView::Null) => Some(None),
                Some(NodeView::Text(t)) => Some(Some(t)),
                _ => None,
            }
        } else {
            None
        },
        _ => None,
    }
}

/// The contents of the first `i` choices of the array at `cp`, or `None`
/// when one of them cannot be read.
pub open spec fn choice_contents(d: Seq<char>, cp: Seq<char>, i: nat) -> Option<Seq<Option<Seq<char>>>>
    decreases i,
{
    if i == 0 {
        Some(seq![])
    } else {
        match choice_contents(d, cp, (i - 1) as nat) {
            None => None,
            Some(prev) => match delta_pointer(d, cp + "/"@ + decimal((i - 1) as nat)) {
                None => None,
                Some(dp) => match delta_content(d, dp) {
                    None => None,
                    Some(c) => Some(prev.push(c)),
                },
            },
        }
    }
}

/// What a stream chunk's JSON text holds: the delta content of each of its
/// choices, in order, read as a chunk `{"choices": [{"delta": {"content":
/// ...}}]}` is (arrays in place of objects taken field by field, other
/// members ignored); `None` when the text is not such a chunk.
pub open spec fn chunk_contents(d: Seq<char>) -> Option<Seq<Option<Seq<char>>>> {
    match choices_pointer(d) {
        None => None,
        Some(cp) => match json_document_node(d, cp) {
            Some(NodeView::Array(n)) => choice_contents(d, cp, n),
            _ => None,
        },
    }
}

proof fn lemma_choice_failure_stays(d: Seq<char>, cp: Seq<char>, i: nat, n: nat)
    requires
        i <= n,
        choice_contents(d, cp, i) is None,
    ensures
        choice_contents(d, cp, n) is None,
    decreases n - i,
{
    if i < n {
        lemma_choice_failure_stays(d, cp, i + 1, n);
    }
}

/// The plain values of the contents read from a chunk.
pub open spec fn contents_view(r: Option<Vec<Option<String>>>) -> Option<Seq<Option<Seq<char>>>> {
    match r {
        Some(v) => Some(v@.map_values(|o: Option<String>| crate::text::opt_view(o))),
        None => None,
    }
}

fn joined(a: &str, b: &str) -> (r: String)
    ensures
        r@ == a@ + b@,
{
    let mut r = owned(a);
    r.append(b);
    r
}

fn choices_pointer_of(d: &str) -> (r: Option<String>)
    ensures
        crate::text::opt_view(r) == choices_pointer(d@),
{
    match document_node(d, "") {
        Some(JsonNode::Object) => {
            if document_node(d, "/choices").is_some() {
                Some(owned("/choices"))
            } else {
                None
            }
        },
        Some(JsonNode::Array(n)) => {
            if n == 1 {
                Some(owned("/0"))
            } else {
                None
            }
        },
        _ => None,
    }
}

fn delta_pointer_of(d: &str, c: &str) -> (r: Option<String>)
    ensures
        crate::text::opt_view(r) == delta_pointer(d@, c@),
{
    match document_node(d, c) {
        Some(JsonNode::Object) => {
            let p = joined(c, "/delta");
            if document_node(d, p.as_str()).is_some() {
                Some(p)
            } else {
                None
            }
        },
        Some(JsonNode::Array(n)) => {
            if n == 1 {
                Some(joined(c, "/0"))
            } else {
                None
            }
        },
        _ => None,
    }
}

fn delta_content_of(d: &str, dp: &str) -> (r: Option<Option<String>>)
    ensures
        match r {
            None => delta_content(d@, dp@) is None,
            Some(c) => delta_content(d@, dp@) == Some(crate::text::opt_view(c)),
        },
{
    match document_node(d, dp) {
        Some(JsonNode::Object) => {
            let p = joined(dp, "/content");
            match document_node(d, p.as_str()) {
                None => Some(None),
                Some(JsonNode::Null) => Some(None),
                Some(JsonNode::Text(t)) => Some(Some(t)),
                _ => None,
            }
        },
        Some(JsonNode::Array(n)) => {
            if n != 1 {
                return None;
            }
            let p = joined(dp, "/0");
            match document_node(d, p.as_str()) {
                Some(JsonNode::Null) => Some(None),
                Some(JsonNode::Text(t)) => Some(Some(t)),
                _ => None,
            }
        },
        _ => None,
    }
}

/// Reads a stream chunk's JSON text: the delta content of each choice.
pub fn read_chunk(data: &str) -> (r: Option<Vec<Option<String>>>)
    ensures
        contents_view(r) == chunk_contents(data@),
{
    let cp = match choices_pointer_of(data) {
        Some(cp) => cp,
        None => {
            return None;
        },
    };
    let n = match document_node(data, cp.as_str()) {
        Some(JsonNode::Array(n)) => n,
        _ => {
            return None;
        },
    };
    let mut out: Vec<Option<String>> = Vec::new();
    let mut i: usize = 0;
    while i < n
        invariant
            i <= n,
            out@.len() == i,
            choices_pointer(data@) == Some(cp@),
            json_document_node(data@, cp@) == Some(NodeView::Array(n as nat)),
            choice_contents(data@, cp@, i as nat) == Some(
                out@.map_values(|o: Option<String>| crate::text::opt_view(o)),
            ),
        decreases n - i,
    {
        let ghost before = out@;
        let c = joined(cp.as_str(), "/");
        let num = u64_text(i as u64);
        let c = joined(c.as_str(), num.as_str());
        assert(c@ == cp@ + "/"@ + decimal(i as nat));
        let dp = match delta_pointer_of(data, c.as_str()) {
            Some(dp) => dp,
            None => {
                proof {
                    lemma_choice_failure_stays(data@, cp@, (i + 1) as nat, n as nat);
                }
                return None;
            },
        };
        match delta_content_of(data, dp.as_str()) {
            None => {
                proof {
                    lemma_choice_failure_stays(data@, cp@, (i + 1) as nat, n as nat);
                }
                return None;
            },
            Some(x) => {
                out.push(x);
            },
        }
        assert(out@.map_values(|o: Option<String>| crate::text::opt_view(o)) =~= before.map_values(
            |o: Option<String>| crate::text::opt_view(o),
        ).push(crate::text::opt_view(out@[i as int])));
        i = i + 1;
    }
    Some(out)
}

/// The text that one stream line carries: none for a line without data or
/// with the end marker; for a data line, the first content among the
/// chunk's choices, or an error when the data is not a chunk.
pub fn sse_line_text(line: &str) -> (r: Result<Option<String>, String>)
    ensures
        sse_data(line@) is None ==> r == Ok::<Option<String>, String>(None),
        sse_data(line@) matches Some(d) ==> match chunk_contents(d) {
            None => r matches Err(e) && e@ == "parse streaming chunk"@,
            Some(cs) => r matches Ok(x) && crate::text::opt_view(x) == first_content(cs),
        },
{
    match sse_payload(line) {
        None => Ok(None),
        Some(data) => match read_chunk(data.as_str()) {
            None => Err(owned("parse streaming chunk")),
            Some(contents) => {
                let t = chunk_text(&contents);
                Ok(t)
            },
        },
    }
}

/// The last line of a stream, when the buffer holds more than white space
/// after the last line break.
pub fn final_sse_line(pending: &str) -> (r: Option<String>)
    ensures
        trim(pending@).len() > 0 ==> (r matches Some(s) && s@ == trim(pending@)),
        trim(pending@).len() == 0 ==> r is None,
{
    let t = trim_chars(&to_chars(pending));
    if t.len() > 0 {
        Some(string_of(&t))
    } else {
        None
    }
}

/// Whether the model list holds the configured model.
pub fn model_listed(ids: &Vec<String>, model: &str) -> (b: bool)
    ensures
        b == exists|i: int| 0 <= i < ids@.len() && (#[trigger] ids@[i])@ == model@,
{
    let mut i: usize = 0;
    while i < ids.len()
        invariant
            i <= ids.len(),
            forall|j: int| 0 <= j < i ==> (#[trigger] ids@[j])@ != model@,
        decreases ids.len() - i,
    {
        if str_eq(ids[i].as_str(), model) {
            return true;
        }
        i = i + 1;
    }
    false
}

/// The connection test's result for a model list: nothing, or the error
/// that the configured model is missing.
pub fn check_model_listed(ids: &Vec<String>, model: &str) -> (r: Result<(), String>)
    ensures
        (exists|i: int| 0 <= i < ids@.len() && (#[trigger] ids@[i])@ == model@) ==> r is Ok,
        !(exists|i: int| 0 <= i < ids@.len() && (#[trigger] ids@[i])@ == model@) ==> (r matches Err(
            e,
        ) && e@ == "configured model '"@ + model@ + "' was not found in local Ollama models"@),
{
    if model_listed(ids, model) {
        Ok(())
    } else {
        let mut e = owned("configured model '");
        e.append(model);
        e.append("' was not found in local Ollama models");
        Err(e)
    }
}

} // verus!
