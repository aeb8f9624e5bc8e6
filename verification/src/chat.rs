//! The AI writing assistant: the request sent to an OpenAI-compatible chat
//! completions endpoint, and the answer or error drawn from its reply.
use vstd::prelude::*;
use crate::json::{
    after_literal, comma_join, json_array, json_quoted, lemma_after_literal, lemma_comma_join_front,
    lemma_read_quoted, lemma_read_string_shrinks, push_json_string, read_string,
};
use crate::text::{ends_with, push_char, push_str, starts_with, trim, trim_end_char, trim_end_matches_char, trim_ws};

verus! {

/// One message of the conversation.
#[derive(Debug, PartialEq, Eq)]
pub struct ChatMessage {
    pub role: String,
    pub content: String,
}

/// What the editor asks of the assistant.
#[derive(Debug, PartialEq, Eq)]
pub struct ChatRequest {
    pub endpoint: String,
    pub api_key: String,
    pub model: String,
    pub messages: Vec<ChatMessage>,
}

/// The assistant's answer.
#[derive(Debug, PartialEq, Eq)]
pub struct ChatResponse {
    pub content: String,
}

/// The body of a successful reply.
#[derive(Debug, PartialEq, Eq)]
pub struct DeepSeekResponse {
    pub choices: Option<Vec<DeepSeekChoice>>,
}

/// One completion choice of a reply.
#[derive(Debug, PartialEq, Eq)]
pub struct DeepSeekChoice {
    pub message: Option<DeepSeekMessage>,
}

/// The message of a completion choice.
#[derive(Debug, PartialEq, Eq)]
pub struct DeepSeekMessage {
    pub content: Option<String>,
}

/// The body of a failed reply.
#[derive(Debug, PartialEq, Eq)]
pub struct DeepSeekError {
    pub error: Option<DeepSeekErrorBody>,
}

/// The error object of a failed reply.
#[derive(Debug, PartialEq, Eq)]
pub struct DeepSeekErrorBody {
    pub message: Option<String>,
}

/// The HTTP request to send: URL, `Authorization` header value and JSON body.
#[derive(Debug, PartialEq, Eq)]
pub struct PreparedChat {
    pub url: String,
    pub authorization: String,
    pub body: String,
}

/// What came of sending a prepared request.
#[derive(Debug, PartialEq, Eq)]
pub enum ChatReply {
    /// The HTTP client could not be built; the client's error text.
    ClientFailed(String),
    /// The request could not be sent; the client's error text.
    SendFailed(String),
    /// A non-success status: its text (such as `404 Not Found`) and the
    /// error body, `None` where the body did not parse.
    Rejected { status: String, body: Option<DeepSeekError> },
    /// A success status, with the parsed body or the parser's error text.
    Accepted(Result<DeepSeekResponse, String>),
}

pub open spec fn completions_path() -> Seq<char> {
    "/chat/completions"@
}

/// An endpoint, once trimmed, is used only when it starts with `http`.
pub open spec fn endpoint_accepted(endpoint: Seq<char>) -> bool {
    endpoint.len() > 0 && "http"@.is_prefix_of(endpoint)
}

/// The URL posted to for a trimmed endpoint: the endpoint itself when it
/// already ends with `/chat/completions`, else the endpoint without trailing
/// slashes followed by `/chat/completions`.
pub open spec fn chat_url(endpoint: Seq<char>) -> Seq<char> {
    if completions_path().is_suffix_of(endpoint) {
        endpoint
    } else {
        trim_end_char(endpoint, '/') + completions_path()
    }
}

/// A message as a JSON object, keys in sorted order.
pub open spec fn message_json(m: ChatMessage) -> Seq<char> {
    "{\"content\":"@ + json_quoted(m.content@) + ",\"role\":"@ + json_quoted(m.role@) + seq!['}']
}

pub open spec fn messages_json(messages: Seq<ChatMessage>) -> Seq<Seq<char>> {
    messages.map_values(|m: ChatMessage| message_json(m))
}

/// The JSON body: the messages, the trimmed model, and `stream` off, keys in
/// sorted order as a `serde_json` object writes them.
pub open spec fn chat_body(model: Seq<char>, messages: Seq<ChatMessage>) -> Seq<char> {
    "{\"messages\":"@ + json_array(messages_json(messages)) + ",\"model\":"@ + json_quoted(
        model,
    ) + ",\"stream\":false}"@
}

/// The `Authorization` header value for a key.
pub open spec fn bearer(api_key: Seq<char>) -> Seq<char> {
    "Bearer "@ + trim_ws(api_key)
}

/// The content of the first choice's message, if the reply has one.
pub open spec fn first_content(data: DeepSeekResponse) -> Option<Seq<char>> {
    match data.choices {
        Some(cs) => if cs@.len() > 0 {
            match cs@[0].message {
                Some(m) => match m.content {
                    Some(c) => Some(c@),
                    None => None,
                },
                None => None,
            }
        } else {
            None
        },
        None => None,
    }
}

/// The message of an error body, if it has one.
pub open spec fn error_body_message(body: Option<DeepSeekError>) -> Option<Seq<char>> {
    match body {
        Some(b) => match b.error {
            Some(e) => match e.message {
                Some(m) => Some(m@),
                None => None,
            },
            None => None,
        },
        None => None,
    }
}

/// What a reply comes to: the answer, or the error text shown to the user.
pub open spec fn chat_outcome(reply: ChatReply) -> Result<Seq<char>, Seq<char>> {
    match reply {
        ChatReply::ClientFailed(e) => Err("Failed to create HTTP client: "@ + e@),
        ChatReply::SendFailed(e) => Err("Request failed: "@ + e@),
        ChatReply::Rejected { status, body } => Err(
            match error_body_message(body) {
                Some(m) => m,
                None => "HTTP "@ + status@,
            },
        ),
        ChatReply::Accepted(Err(e)) => Err("Failed to parse response: "@ + e@),
        ChatReply::Accepted(Ok(data)) => Ok(
            match first_content(data) {
                Some(c) => c,
                None => "(No response content)"@,
            },
        ),
    }
}

fn push_messages(out: &mut String, messages: &Vec<ChatMessage>)
    ensures
        final(out)@ == old(out)@ + json_array(messages_json(messages@)),
{
    push_char(out, '[');
    let ghost start = out@;
    let mut i: usize = 0;
    while i < messages.len()
        invariant
            i <= messages.len(),
            start == old(out)@.push('['),
            out@ == start + comma_join(messages_json(messages@.take(i as int))),
        decreases messages.len() - i,
    {
        if i > 0 {
            push_char(out, ',');
        }
        let m = &messages[i];
        push_str(out, "{\"content\":");
        push_json_string(out, m.content.as_str());
        push_str(out, ",\"role\":");
        push_json_string(out, m.role.as_str());
        push_char(out, '}');
        proof {
            let qs = messages_json(messages@.take(i + 1));
            assert(qs =~= messages_json(messages@.take(i as int)).push(message_json(messages@[i as int])));
            assert(qs.drop_last() == messages_json(messages@.take(i as int)));
            if i == 0 {
                assert(messages_json(messages@.take(0)).len() == 0);
            }
            assert(out@ =~= start + comma_join(qs));
        }
        i += 1;
    }
    push_char(out, ']');
    assert(messages@.take(messages@.len() as int) == messages@);
    assert(out@ =~= old(out)@ + json_array(messages_json(messages@)));
}

/// The URL, header and body that `chat_with_ai` sends, or the error it gives
/// for an endpoint that, trimmed, is empty or does not start with `http`.
pub fn prepare_chat(request: &ChatRequest) -> (r: Result<PreparedChat, String>)
    ensures
        r is Ok <==> endpoint_accepted(trim_ws(request.endpoint@)),
        r matches Err(e) ==> e@ == "Invalid API endpoint: "@ + trim_ws(request.endpoint@),
        r matches Ok(p) ==> {
            &&& p.url@ == chat_url(trim_ws(request.endpoint@))
            &&& p.authorization@ == bearer(request.api_key@)
            &&& p.body@ == chat_body(trim_ws(request.model@), request.messages@)
        },
{
    let endpoint = trim(request.endpoint.as_str());
    if endpoint.as_str().is_empty() || !starts_with(endpoint.as_str(), "http") {
        let mut e = String::new();
        push_str(&mut e, "Invalid API endpoint: ");
        push_str(&mut e, endpoint.as_str());
        assert(e@ =~= "Invalid API endpoint: "@ + trim_ws(request.endpoint@));
        return Err(e);
    }
    let url = if ends_with(endpoint.as_str(), "/chat/completions") {
        endpoint
    } else {
        let mut u = trim_end_matches_char(endpoint.as_str(), '/');
        push_str(&mut u, "/chat/completions");
        u
    };
    let mut authorization = String::new();
    push_str(&mut authorization, "Bearer ");
    let key = trim(request.api_key.as_str());
    push_str(&mut authorization, key.as_str());
    assert(authorization@ =~= bearer(request.api_key@));
    let mut body = String::new();
    push_str(&mut body, "{\"messages\":");
    push_messages(&mut body, &request.messages);
    push_str(&mut body, ",\"model\":");
    let model = trim(request.model.as_str());
    push_json_string(&mut body, model.as_str());
    push_str(&mut body, ",\"stream\":false}");
    assert(body@ =~= chat_body(trim_ws(request.model@), request.messages@));
    Ok(PreparedChat { url, authorization, body })
}

/// Whether a reply's HTTP status counts as success, so that its body is read
/// as an answer rather than as an error: a 2xx code, the range that
/// `http::StatusCode::is_success` tests.
pub fn reply_succeeded(status_code: u16) -> (r: bool)
    ensures
        r == (200 <= status_code < 300),
{
    200 <= status_code && status_code < 300
}

fn prefixed(prefix: &str, detail: &str) -> (r: String)
    ensures
        r@ == prefix@ + detail@,
{
    let mut r = String::new();
    push_str(&mut r, prefix);
    push_str(&mut r, detail);
    assert(r@ =~= prefix@ + detail@);
    r
}

fn first_reply_content(data: &DeepSeekResponse) -> (r: Option<String>)
    ensures
        r matches Some(c) ==> first_content(*data) == Some(c@),
        r is None ==> first_content(*data) is None,
{
    match &data.choices {
        Some(cs) => {
            if cs.len() > 0 {
                match &cs[0].message {
                    Some(m) => match &m.content {
                        Some(c) => Some(c.clone()),
                        None => None,
                    },
                    None => None,
                }
            } else {
                None
            }
        },
        None => None,
    }
}

/// What `chat_with_ai` returns for a reply: the first choice's content (or
/// `(No response content)`), or the error text for each way it can fail.
pub fn conclude_chat(reply: ChatReply) -> (r: Result<ChatResponse, String>)
    ensures
        match (r, chat_outcome(reply)) {
            (Ok(a), Ok(b)) => a.content@ == b,
            (Err(a), Err(b)) => a@ == b,
            _ => false,
        },
{
    match reply {
        ChatReply::ClientFailed(e) => Err(prefixed("Failed to create HTTP client: ", e.as_str())),
        ChatReply::SendFailed(e) => Err(prefixed("Request failed: ", e.as_str())),
        ChatReply::Rejected { status, body } => {
            let message = match &body {
                Some(b) => match &b.error {
                    Some(err) => match &err.message {
                        Some(m) => Some(m.clone()),
                        None => None,
                    },
                    None => None,
                },
                None => None,
            };
            match message {
                Some(m) => Err(m),
                None => Err(prefixed("HTTP ", status.as_str())),
            }
        },
        ChatReply::Accepted(Err(e)) => Err(prefixed("Failed to parse response: ", e.as_str())),
        ChatReply::Accepted(Ok(data)) => {
            let content = match first_reply_content(&data) {
                Some(c) => c,
                None => {
                    let mut c = String::new();
                    push_str(&mut c, "(No response content)");
                    assert(c@ =~= "(No response content)"@);
                    c
                },
            };
            Ok(ChatResponse { content })
        },
    }
}

/// Removing trailing copies of `c` keeps a prefix of `s`, and removes only `c`s.
proof fn lemma_trim_end_char_prefix(s: Seq<char>, c: char)
    ensures
        trim_end_char(s, c).is_prefix_of(s),
        forall|i: int| trim_end_char(s, c).len() <= i < s.len() ==> s[i] == c,
    decreases s.len(),
{
    if s.len() > 0 && s.last() == c {
        lemma_trim_end_char_prefix(s.drop_last(), c);
        let t = trim_end_char(s.drop_last(), c);
        assert(t =~= s.subrange(0, t.len() as int));
        assert forall|i: int| t.len() <= i < s.len() implies s[i] == c by {
            if i < s.len() - 1 {
                assert(s.drop_last()[i] == s[i]);
            }
        }
    } else {
        assert(s =~= s.subrange(0, s.len() as int));
    }
}

/// Every URL that a chat request is posted to ends with `/chat/completions`,
/// so normalising an already normalised endpoint leaves it as it is.
pub proof fn lemma_chat_url_normalised(endpoint: Seq<char>)
    ensures
        completions_path().is_suffix_of(chat_url(endpoint)),
        chat_url(chat_url(endpoint)) == chat_url(endpoint),
{
    if !completions_path().is_suffix_of(endpoint) {
        let t = trim_end_char(endpoint, '/');
        let u = t + completions_path();
        assert(u.subrange(t.len() as int, u.len() as int) =~= completions_path());
    }
}

/// An endpoint that is accepted is posted to a URL that still starts with `http`.
pub proof fn lemma_chat_url_keeps_scheme(endpoint: Seq<char>)
    requires
        endpoint_accepted(endpoint),
    ensures
        "http"@.is_prefix_of(chat_url(endpoint)),
{
    reveal_strlit("http");
    if !completions_path().is_suffix_of(endpoint) {
        let t = trim_end_char(endpoint, '/');
        lemma_trim_end_char_prefix(endpoint, '/');
        assert(endpoint[0] == 'h' && endpoint[1] == 't' && endpoint[2] == 't' && endpoint[3] == 'p') by {
            assert(endpoint.subrange(0, 4) == "http"@);
            assert(endpoint.subrange(0, 4)[0] == 'h');
            assert(endpoint.subrange(0, 4)[1] == 't');
            assert(endpoint.subrange(0, 4)[2] == 't');
            assert(endpoint.subrange(0, 4)[3] == 'p');
        }
        if t.len() < 4 {
            assert(endpoint[t.len() as int] == '/');
        }
        assert(t.len() >= 4);
        let u = t + completions_path();
        assert(u.subrange(0, 4) =~= "http"@) by {
            assert(t.subrange(0, 4) == endpoint.subrange(0, 4));
        }
    }
}

/// An accepted reply is answered with the content of the message of its
/// first choice whenever there is one, whatever the number of choices; the
/// placeholder comes only when the first choice, its message or its content
/// is missing.
pub proof fn lemma_answer_is_first_choice(data: DeepSeekResponse)
    ensures
        (data.choices is Some && data.choices->0@.len() >= 1 && data.choices->0@[0].message is Some
            && data.choices->0@[0].message->0.content is Some) ==> chat_outcome(ChatReply::Accepted(Ok(data))) == Ok::<
            Seq<char>,
            Seq<char>,
        >(data.choices->0@[0].message->0.content->0@),
        !(data.choices is Some && data.choices->0@.len() >= 1 && data.choices->0@[0].message is Some
            && data.choices->0@[0].message->0.content is Some) ==> chat_outcome(ChatReply::Accepted(Ok(data))) == Ok::<
            Seq<char>,
            Seq<char>,
        >("(No response content)"@),
{
}

/// Reads a message object at the start of `t` as a JSON reader sees the
/// body: its role and content, and the text after the object.
#[verifier::opaque]
pub open spec fn read_message(t: Seq<char>) -> Option<((Seq<char>, Seq<char>), Seq<char>)> {
    match after_literal("{\"content\":"@, t) {
        Some(a) => match read_string(a) {
            Some((content, b)) => match after_literal(",\"role\":"@, b) {
                Some(c) => match read_string(c) {
                    Some((role, d)) => if d.len() > 0 && d[0] == '}' {
                        Some(((role, content), d.drop_first()))
                    } else {
                        None
                    },
                    None => None,
                },
                None => None,
            },
            None => None,
        },
        None => None,
    }
}

/// What is left after reading a message object is shorter than what was read.
pub proof fn lemma_read_message_shrinks(t: Seq<char>)
    ensures
        read_message(t) matches Some((_, r)) ==> r.len() < t.len(),
{
    reveal(read_message);
    if let Some(a) = after_literal("{\"content\":"@, t) {
        lemma_read_string_shrinks(a);
        if let Some((_, b)) = read_string(a) {
            if let Some(c) = after_literal(",\"role\":"@, b) {
                lemma_read_string_shrinks(c);
            }
        }
    }
}

/// Reads the message objects of an array after its `[`, up to and including
/// its `]`.
pub open spec fn read_message_items(t: Seq<char>) -> Option<(Seq<(Seq<char>, Seq<char>)>, Seq<char>)>
    decreases t.len(),
{
    match read_message(t) {
        Some((m, r)) => {
            proof {
                lemma_read_message_shrinks(t);
            }
            if r.len() > 0 && r[0] == ']' {
                Some((seq![m], r.drop_first()))
            } else if r.len() > 0 && r[0] == ',' {
                match read_message_items(r.drop_first()) {
                    Some((ms, r2)) => Some((seq![m] + ms, r2)),
                    None => None,
                }
            } else {
                None
            }
        },
        None => None,
    }
}

/// Reads an array of message objects at the start of `t`.
pub open spec fn read_message_array(t: Seq<char>) -> Option<(Seq<(Seq<char>, Seq<char>)>, Seq<char>)> {
    if t.len() >= 2 && t[0] == '[' && t[1] == ']' {
        Some((Seq::empty(), t.skip(2)))
    } else if t.len() >= 1 && t[0] == '[' {
        read_message_items(t.drop_first())
    } else {
        None
    }
}

/// Reads a chat request body as the service does: the (role, content) of
/// each message in order, and the model; streaming must be off.
pub open spec fn read_chat_body(t: Seq<char>) -> Option<(Seq<(Seq<char>, Seq<char>)>, Seq<char>)> {
    match after_literal("{\"messages\":"@, t) {
        Some(a) => match read_message_array(a) {
            Some((ms, b)) => match after_literal(",\"model\":"@, b) {
                Some(c) => match read_string(c) {
                    Some((model, d)) => if d == ",\"stream\":false}"@ {
                        Some((ms, model))
                    } else {
                        None
                    },
                    None => None,
                },
                None => None,
            },
            None => None,
        },
        None => None,
    }
}

/// The role and content of each message.
pub open spec fn message_pairs(messages: Seq<ChatMessage>) -> Seq<(Seq<char>, Seq<char>)> {
    messages.map_values(|m: ChatMessage| (m.role@, m.content@))
}

proof fn lemma_read_one_message(m: ChatMessage, rest: Seq<char>)
    ensures
        read_message(message_json(m) + rest) == Some(((m.role@, m.content@), rest)),
{
    reveal(read_message);
    let l1 = "{\"content\":"@;
    let l2 = ",\"role\":"@;
    let qc = json_quoted(m.content@);
    let qr = json_quoted(m.role@);
    let after_role = seq!['}'] + rest;
    let after_content = l2 + (qr + after_role);
    assert(message_json(m) + rest =~= l1 + (qc + after_content));
    lemma_after_literal(l1, qc + after_content);
    lemma_read_quoted(m.content@, after_content);
    lemma_after_literal(l2, qr + after_role);
    lemma_read_quoted(m.role@, after_role);
    assert(after_role.drop_first() =~= rest);
}

proof fn lemma_read_messages(ms: Seq<ChatMessage>, rest: Seq<char>)
    requires
        ms.len() >= 1,
    ensures
        read_message_items(comma_join(messages_json(ms)) + seq![']'] + rest) == Some(
            (message_pairs(ms), rest),
        ),
    decreases ms.len(),
{
    let q = messages_json(ms);
    if ms.len() == 1 {
        assert(comma_join(q) == q[0]);
        lemma_read_one_message(ms[0], seq![']'] + rest);
        assert(q[0] + seq![']'] + rest =~= message_json(ms[0]) + (seq![']'] + rest));
        assert((seq![']'] + rest).drop_first() =~= rest);
        assert(message_pairs(ms) =~= seq![(ms[0].role@, ms[0].content@)]);
    } else {
        lemma_comma_join_front(q);
        let tail = ms.drop_first();
        assert(q.drop_first() =~= messages_json(tail));
        lemma_read_messages(tail, rest);
        let after = comma_join(messages_json(tail)) + seq![']'] + rest;
        lemma_read_one_message(ms[0], seq![','] + after);
        assert(comma_join(q) + seq![']'] + rest =~= message_json(ms[0]) + (seq![','] + after));
        assert((seq![','] + after).drop_first() =~= after);
        assert(message_pairs(ms) =~= seq![(ms[0].role@, ms[0].content@)] + message_pairs(tail));
    }
}

/// The body sent reads back as every message of the request, in order, with
/// its role and content, for any number of messages, and the trimmed model.
pub proof fn lemma_chat_body_round_trip(model: Seq<char>, messages: Seq<ChatMessage>)
    ensures
        read_chat_body(chat_body(model, messages)) == Some((message_pairs(messages), model)),
{
    reveal_strlit("{\"content\":");
    let arr = json_array(messages_json(messages));
    let tail = ",\"model\":"@ + (json_quoted(model) + ",\"stream\":false}"@);
    assert(chat_body(model, messages) =~= "{\"messages\":"@ + (arr + tail));
    lemma_after_literal("{\"messages\":"@, arr + tail);
    let x = arr + tail;
    if messages.len() == 0 {
        assert(messages_json(messages).len() == 0);
        assert(x =~= seq!['[', ']'] + tail);
        assert(x.skip(2) =~= tail);
        assert(message_pairs(messages) =~= Seq::<(Seq<char>, Seq<char>)>::empty());
    } else {
        lemma_read_messages(messages, tail);
        if messages.len() >= 2 {
            lemma_comma_join_front(messages_json(messages));
        } else {
            assert(comma_join(messages_json(messages)) == messages_json(messages)[0]);
        }
        assert(messages_json(messages)[0] == message_json(messages[0]));
        assert(x.drop_first() =~= comma_join(messages_json(messages)) + seq![']'] + tail);
        assert(x[1] == '{');
    }
    lemma_after_literal(",\"model\":"@, json_quoted(model) + ",\"stream\":false}"@);
    lemma_read_quoted(model, ",\"stream\":false}"@);
}

proof fn lemma_prefixed(p: Seq<char>, d: Seq<char>)
    ensures
        p.is_prefix_of(p + d),
        d.is_suffix_of(p + d),
{
    assert((p + d).subrange(0, p.len() as int) =~= p);
    assert((p + d).subrange(p.len() as int, (p + d).len() as int) =~= d);
}

/// Every failure is reported as an error that ends with the failure's own
/// text, unchanged; a refusal carrying a server message is reported as that
/// message exactly, and one without ends with the HTTP status.
pub proof fn lemma_failures_keep_their_text(detail: String, status: String, body: Option<DeepSeekError>)
    ensures
        chat_outcome(ChatReply::ClientFailed(detail)) matches Err(m) && detail@.is_suffix_of(m)
            && "Failed to create HTTP client: "@.is_prefix_of(m),
        chat_outcome(ChatReply::SendFailed(detail)) matches Err(m) && detail@.is_suffix_of(m)
            && "Request failed: "@.is_prefix_of(m),
        chat_outcome(ChatReply::Accepted(Err(detail))) matches Err(m) && detail@.is_suffix_of(m)
            && "Failed to parse response: "@.is_prefix_of(m),
        (body is Some && body->0.error is Some && body->0.error->0.message is Some) ==> chat_outcome(
            ChatReply::Rejected { status, body },
        ) == Err::<Seq<char>, Seq<char>>(body->0.error->0.message->0@),
        !(body is Some && body->0.error is Some && body->0.error->0.message is Some) ==> (chat_outcome(
            ChatReply::Rejected { status, body },
        ) matches Err(m) && status@.is_suffix_of(m) && "HTTP "@.is_prefix_of(m)),
{
    lemma_prefixed("Failed to create HTTP client: "@, detail@);
    lemma_prefixed("Request failed: "@, detail@);
    lemma_prefixed("Failed to parse response: "@, detail@);
    lemma_prefixed("HTTP "@, status@);
}

/// The `Authorization` header is `Bearer ` and then the key exactly as
/// trimmed, nothing else.
pub proof fn lemma_bearer_carries_key(api_key: Seq<char>)
    ensures
        "Bearer "@.is_prefix_of(bearer(api_key)),
        trim_ws(api_key).is_suffix_of(bearer(api_key)),
        bearer(api_key).len() == 7 + trim_ws(api_key).len(),
{
    reveal_strlit("Bearer ");
    lemma_prefixed("Bearer "@, trim_ws(api_key));
}

} // verus!
