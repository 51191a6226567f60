//! Which requests ask for a streamed reply.

use crate::headers::{get_all, header_text, value_text, values_of};
use crate::text::{
    chars_of, ends_with, same_text, split, split_at_each, str_view, trim, trimmed, views,
};
use http::HeaderMap;
use vstd::prelude::*;
use vstd::string::*;

verus! {

/// The interfaces whose replies are streamed as server-sent events.
#[derive(Debug, Clone, Copy, PartialEq, Eq, Structural)]
pub enum EndpointKind {
    /// OpenAI Chat Completions: the path ends with `/chat/completions`.
    ChatCompletions,
    /// OpenAI Responses: the path ends with `/responses`.
    Responses,
    /// Anthropic Messages: the path ends with `/messages`.
    AnthropicMessages,
    /// Gemini: the path ends with `:streamGenerateContent`, and the query holds `alt=sse`.
    GeminiStream,
}

/// The query without the question mark that it may start with.
pub open spec fn without_question_mark(query: Seq<char>) -> Seq<char> {
    if query.len() > 0 && query[0] == '?' {
        query.drop_first()
    } else {
        query
    }
}

/// The query holds the pair `alt=sse` among its pairs.
pub open spec fn asks_for_sse(query: Seq<char>) -> bool {
    split(without_question_mark(query), '&').contains("alt=sse"@)
}

/// The interface that a request addresses, if any. Only POST requests address one, and only the
/// end of the path counts.
pub open spec fn endpoint_of(
    method: Seq<char>,
    path: Seq<char>,
    query: Option<Seq<char>>,
) -> Option<EndpointKind> {
    if method != "POST"@ {
        None
    } else if "/chat/completions"@.is_suffix_of(path) {
        Some(EndpointKind::ChatCompletions)
    } else if "/responses"@.is_suffix_of(path) {
        Some(EndpointKind::Responses)
    } else if "/messages"@.is_suffix_of(path) {
        Some(EndpointKind::AnthropicMessages)
    } else if ":streamGenerateContent"@.is_suffix_of(path) && query is Some && asks_for_sse(
        query->0,
    ) {
        Some(EndpointKind::GeminiStream)
    } else {
        None
    }
}

/// Finds the interface that a request addresses by its method, path and query.
pub fn match_endpoint(method: &str, path: &str, query: Option<&str>) -> (res: Option<EndpointKind>)
    ensures
        res == endpoint_of(method@, path@, str_view(query)),
{
    if !same_text(method, "POST") {
        return None;
    }
    if ends_with(path, "/chat/completions") {
        return Some(EndpointKind::ChatCompletions);
    }
    if ends_with(path, "/responses") {
        return Some(EndpointKind::Responses);
    }
    if ends_with(path, "/messages") {
        return Some(EndpointKind::AnthropicMessages);
    }
    if ends_with(path, ":streamGenerateContent") {
        if let Some(q) = query {
            if has_alt_sse(q) {
                return Some(EndpointKind::GeminiStream);
            }
        }
    }
    None
}

/// Leaves out the question mark that a query may start with.
fn unmarked(query: &str) -> (res: &str)
    ensures
        res@ == without_question_mark(query@),
{
    let chars = chars_of(query);
    if chars.len() > 0 && chars[0] == '?' {
        let res = query.substring_char(1, chars.len());
        assert(res@ =~= query@.drop_first());
        res
    } else {
        query
    }
}

/// Whether one of the pairs of a query, which stand between `&` signs, is `alt=sse`. A question
/// mark at the start of the query does not count.
pub fn has_alt_sse(query: &str) -> (res: bool)
    ensures
        res == asks_for_sse(query@),
{
    let pairs = split_at_each(unmarked(query), '&');
    let mut i: usize = 0;
    while i < pairs.len()
        invariant
            i <= pairs@.len(),
            views(pairs@) == split(without_question_mark(query@), '&'),
            forall|j: int| 0 <= j < i ==> views(pairs@)[j] != "alt=sse"@,
        decreases pairs@.len() - i,
    {
        if same_text(pairs[i], "alt=sse") {
            assert(views(pairs@)[i as int] == "alt=sse"@);
            return true;
        }
        i += 1;
    }
    false
}

/// The request asks for an event stream in its `Accept` field, and for nothing else: the field
/// has one value, which is `text/event-stream` but for white space around it.
pub open spec fn wants_event_stream(headers: HeaderMap) -> bool {
    let values = values_of(headers, "accept"@);
    values.len() == 1 && match header_text(values[0]) {
        Some(t) => trim(t) == "text/event-stream"@,
        None => false,
    }
}

/// Whether the `Accept` field asks for an event stream. Several media types, or one with
/// parameters, do not.
pub fn accepts_event_stream(headers: &HeaderMap) -> (res: bool)
    ensures
        res == wants_event_stream(*headers),
{
    let values = get_all(headers, "accept");
    assert(values.deep_view().len() == values@.len());
    if values.len() != 1 {
        return false;
    }
    assert(values.deep_view()[0] == values@[0]@);
    match value_text(values[0].as_slice()) {
        Some(t) => same_text(trimmed(t), "text/event-stream"),
        None => false,
    }
}

/// White space between the parts of a JSON document.
pub open spec fn is_json_space(b: u8) -> bool {
    b == 32 || b == 9 || b == 10 || b == 13
}

/// The first byte that is no JSON white space opens an object.
pub open spec fn opens_object(json: Seq<u8>) -> bool
    decreases json.len(),
{
    json.len() > 0 && if is_json_space(json[0]) {
        opens_object(json.drop_first())
    } else {
        json[0] == 123
    }
}

/// A request body asks for a streamed reply: it is an object whose member `stream` is true.
/// `stream` is what the body, read as JSON, says under that name.
pub open spec fn asks_for_stream(json: Seq<u8>, stream: Option<bool>) -> bool {
    opens_object(json) && stream == Some(true)
}

/// Whether a request body asks for a streamed reply. `stream` is what the body, read as JSON, says
/// under that name, where an absent member reads as `false`; it is `None` where the body does not
/// read that way. Only an object has members.
pub fn probe_stream_flag(json_body: &[u8], stream: Option<bool>) -> (res: bool)
    ensures
        res == asks_for_stream(json_body@, stream),
{
    let mut i: usize = 0;
    assert(json_body@.skip(0) =~= json_body@);
    while i < json_body.len()
        invariant
            i <= json_body@.len(),
            opens_object(json_body@.skip(i as int)) == opens_object(json_body@),
        decreases json_body@.len() - i,
    {
        let b = json_body[i];
        assert(json_body@.skip(i as int)[0] == b);
        assert(json_body@.skip(i as int).drop_first() =~= json_body@.skip(i + 1));
        if !(b == 32 || b == 9 || b == 10 || b == 13) {
            return b == 123 && match stream {
                Some(flag) => flag,
                None => false,
            };
        }
        i += 1;
    }
    false
}

/// The ends of path that address an interface exclude each other.
pub(crate) proof fn lemma_one_interface(path: Seq<char>)
    ensures
        "/chat/completions"@.is_suffix_of(path) ==> !"/responses"@.is_suffix_of(path)
            && !"/messages"@.is_suffix_of(path) && !":streamGenerateContent"@.is_suffix_of(path),
        "/responses"@.is_suffix_of(path) ==> !"/messages"@.is_suffix_of(path)
            && !":streamGenerateContent"@.is_suffix_of(path),
        "/messages"@.is_suffix_of(path) ==> !":streamGenerateContent"@.is_suffix_of(path),
{
    reveal_strlit("/chat/completions");
    reveal_strlit("/responses");
    reveal_strlit("/messages");
    reveal_strlit(":streamGenerateContent");
    let n = path.len();
    if "/chat/completions"@.is_suffix_of(path) {
        assert(path[n - 1] == "/chat/completions"@[16]);
        assert(path[n - 2] == "/chat/completions"@[15]);
        assert(path[n - 3] == "/chat/completions"@[14]);
    }
    if "/responses"@.is_suffix_of(path) {
        assert(path[n - 2] == "/responses"@[8]);
        assert(path[n - 3] == "/responses"@[7]);
    }
    if "/messages"@.is_suffix_of(path) {
        assert(path[n - 2] == "/messages"@[7]);
        assert(path[n - 3] == "/messages"@[6]);
    }
    if ":streamGenerateContent"@.is_suffix_of(path) {
        assert(path[n - 1] == ":streamGenerateContent"@[21]);
        assert(path[n - 2] == ":streamGenerateContent"@[20]);
    }
}

proof fn lemma_suffix_behind_prefix(suffix: Seq<char>, prefix: Seq<char>, path: Seq<char>)
    requires
        suffix.is_suffix_of(path),
    ensures
        suffix.is_suffix_of(prefix + path),
{
    let whole = prefix + path;
    assert(whole.subrange(whole.len() - suffix.len(), whole.len() as int) =~= path.subrange(
        path.len() - suffix.len(),
        path.len() as int,
    ));
}

/// Whatever stands before the path of a request that addresses an interface, it addresses the
/// same one.
pub proof fn prefix_does_not_matter(
    method: Seq<char>,
    prefix: Seq<char>,
    path: Seq<char>,
    query: Option<Seq<char>>,
)
    requires
        endpoint_of(method, path, query) is Some,
    ensures
        endpoint_of(method, prefix + path, query) == endpoint_of(method, path, query),
{
    lemma_one_interface(prefix + path);
    if "/chat/completions"@.is_suffix_of(path) {
        lemma_suffix_behind_prefix("/chat/completions"@, prefix, path);
    } else if "/responses"@.is_suffix_of(path) {
        lemma_suffix_behind_prefix("/responses"@, prefix, path);
    } else if "/messages"@.is_suffix_of(path) {
        lemma_suffix_behind_prefix("/messages"@, prefix, path);
    } else {
        lemma_suffix_behind_prefix(":streamGenerateContent"@, prefix, path);
    }
}

} // verus!
