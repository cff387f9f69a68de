use crate::history::{history_of, opened, trimmed, SessionStore};
use crate::json::{
    entry_models, json_array, json_bool, json_element, json_member, json_model, json_object,
    json_parse, json_str, json_string, json_text, keys_ascend, models, parse_json, render_json,
    text_before, Json,
};
use crate::message::{history_view, Message, MessageView, Role};
use crate::text::{decimal, decimal_text, join2};
use serde_json::Value;
use vstd::prelude::*;
use vstd::string::*;

verus! {

/// The model that every request names.
pub const MODEL_NAME: &'static str = "qwen3";

/// The address of the chat-completion endpoint of a server on `port`.
pub open spec fn completions_address(port: u16) -> Seq<char> {
    "http://127.0.0.1:"@ + decimal(port as nat) + "/v1/chat/completions"@
}

/// The address that requests are posted to when the server listens on `port`.
pub fn completions_url(port: u16) -> (url: String)
    ensures
        url@ == completions_address(port),
{
    let mut url = join2("http://127.0.0.1:", decimal_text(port as u64).as_str());
    url.append("/v1/chat/completions");
    url
}

/// One message as the server reads it: its content and the name of its role.
pub open spec fn message_doc(message: MessageView) -> Json {
    Json::Object(
        seq![
            ("content"@, Json::String(message.content)),
            ("role"@, Json::String(message.role.name_text())),
        ],
    )
}

/// The body of a request: the whole history and the model's name, and the
/// streaming flag where a stream is asked for.
pub open spec fn request_doc(history: Seq<MessageView>, stream: bool) -> Json {
    let head = seq![
        ("messages"@, Json::Array(history.map_values(|m: MessageView| message_doc(m)))),
        ("model"@, Json::String(MODEL_NAME@)),
    ];
    if stream {
        Json::Object(head.push(("stream"@, Json::Bool(true))))
    } else {
        Json::Object(head)
    }
}

proof fn lemma_before(a: Seq<char>, b: Seq<char>, k: int)
    requires
        0 <= k < a.len(),
        k < b.len(),
        a.take(k) == b.take(k),
        (a[k] as u32) < (b[k] as u32),
    ensures
        text_before(a, b),
{
}

fn message_json(message: &Message) -> (value: Value)
    ensures
        json_model(value) == message_doc(message@),
{
    let entries = vec![
        ("content".to_owned(), json_string(message.content.clone())),
        ("role".to_owned(), json_string(message.role.name().to_owned())),
    ];
    proof {
        let wanted = seq![
            ("content"@, Json::String(message@.content)),
            ("role"@, Json::String(message@.role.name_text())),
        ];
        assert(entry_models(entries@) =~= wanted);
        reveal_strlit("content");
        reveal_strlit("role");
        assert("content"@.take(0) =~= "role"@.take(0));
        lemma_before("content"@, "role"@, 0);
        assert(keys_ascend(wanted));
    }
    json_object(entries)
}

/// Builds the document of a request from a history.
pub fn request_json(history: &Vec<Message>, stream: bool) -> (value: Value)
    ensures
        json_model(value) == request_doc(history_view(history@), stream),
{
    let mut items: Vec<Value> = Vec::new();
    let mut i: usize = 0;
    while i < history.len()
        invariant
            0 <= i <= history.len(),
            items.len() == i,
            forall|j: int| 0 <= j < i ==> json_model(#[trigger] items@[j]) == message_doc(history@[j]@),
        decreases history.len() - i,
    {
        items.push(message_json(&history[i]));
        i = i + 1;
    }
    let ghost docs = history_view(history@).map_values(|m: MessageView| message_doc(m));
    assert(models(items@) =~= docs);
    let mut entries = vec![
        ("messages".to_owned(), json_array(items)),
        ("model".to_owned(), json_string(MODEL_NAME.to_owned())),
    ];
    if stream {
        entries.push(("stream".to_owned(), json_bool(true)));
    }
    proof {
        let head = seq![("messages"@, Json::Array(docs)), ("model"@, Json::String(MODEL_NAME@))];
        let wanted = if stream {
            head.push(("stream"@, Json::Bool(true)))
        } else {
            head
        };
        assert(entry_models(entries@) =~= wanted);
        reveal_strlit("messages");
        reveal_strlit("model");
        reveal_strlit("stream");
        assert("messages"@.take(1) =~= "model"@.take(1));
        lemma_before("messages"@, "model"@, 1);
        assert("model"@.take(0) =~= "stream"@.take(0));
        lemma_before("model"@, "stream"@, 0);
        assert(keys_ascend(wanted));
    }
    json_object(entries)
}

/// Writes the body of a request for `history`: the text that `serde_json`
/// writes for the document of the request, and `None` where it writes none.
pub fn request_body(history: &Vec<Message>, stream: bool) -> (body: Option<String>)
    ensures
        match body {
            Some(text) => json_text(request_doc(history_view(history@), stream)) == Some(text@),
            None => json_text(request_doc(history_view(history@), stream)) is None,
        },
{
    let document = request_json(history, stream);
    render_json(&document)
}

/// The text at `choices[0].<part>.content` of `document`, where all of that is
/// there and the content is a string.
pub open spec fn choice_text(document: Json, part: Seq<char>) -> Option<Seq<char>> {
    match document.member("choices"@) {
        Some(choices) => match choices.element(0) {
            Some(choice) => match choice.member(part) {
                Some(holder) => match holder.member("content"@) {
                    Some(content) => content.text(),
                    None => None,
                },
                None => None,
            },
            None => None,
        },
        None => None,
    }
}

/// The reply in the body of a completed request: the content of the first
/// choice's message.
pub open spec fn reply_text(document: Json) -> Option<Seq<char>> {
    choice_text(document, "message"@)
}

/// The fragment in one frame of a stream: the content of the first choice's
/// delta.
pub open spec fn delta_text(document: Json) -> Option<Seq<char>> {
    choice_text(document, "delta"@)
}

fn choice_content(document: &Value, part: &str) -> (text: Option<String>)
    ensures
        match text {
            Some(t) => choice_text(json_model(*document), part@) == Some(t@),
            None => choice_text(json_model(*document), part@) is None,
        },
{
    let choices = match json_member(document, "choices") {
        Some(choices) => choices,
        None => {
            return None;
        },
    };
    let choice = match json_element(choices, 0) {
        Some(choice) => choice,
        None => {
            return None;
        },
    };
    let holder = match json_member(choice, part) {
        Some(holder) => holder,
        None => {
            return None;
        },
    };
    let content = match json_member(holder, "content") {
        Some(content) => content,
        None => {
            return None;
        },
    };
    match json_str(content) {
        Some(text) => Some(text.to_owned()),
        None => None,
    }
}

/// Reads the reply out of the document of a completed request.
pub fn reply_content(document: &Value) -> (reply: Option<String>)
    ensures
        match reply {
            Some(text) => reply_text(json_model(*document)) == Some(text@),
            None => reply_text(json_model(*document)) is None,
        },
{
    choice_content(document, "message")
}

/// Reads the fragment out of the document of one frame of a stream.
pub fn delta_content(document: &Value) -> (fragment: Option<String>)
    ensures
        match fragment {
            Some(text) => delta_text(json_model(*document)) == Some(text@),
            None => delta_text(json_model(*document)) is None,
        },
{
    choice_content(document, "delta")
}

/// Whether an HTTP status stands for success: the codes from 200 to 299.
pub open spec fn status_ok(status: u16) -> bool {
    200 <= status < 300
}

/// Whether an HTTP status stands for success.
pub fn is_success(status: u16) -> (ok: bool)
    ensures
        ok == status_ok(status),
{
    200 <= status && status < 300
}

/// How a request can fail, as contracts see it.
pub enum ChatFailure {
    Network(Seq<char>),
    Server(u16),
    MalformedResponse,
}

/// How a request can fail.
#[derive(Debug, PartialEq, Eq)]
pub enum ChatError {
    /// The server could not be reached, or the connection broke; with what the
    /// transport said.
    Network(String),
    /// The server answered with a status that is no success.
    Server(u16),
    /// The server answered with success, and the reply is not in the body.
    MalformedResponse,
}

impl View for ChatError {
    type V = ChatFailure;

    open spec fn view(&self) -> ChatFailure {
        match self {
            ChatError::Network(detail) => ChatFailure::Network(detail@),
            ChatError::Server(status) => ChatFailure::Server(*status),
            ChatError::MalformedResponse => ChatFailure::MalformedResponse,
        }
    }
}

impl ChatFailure {
    /// The text of the failure as it is shown to the caller.
    pub open spec fn message_text(self) -> Seq<char> {
        match self {
            ChatFailure::Network(detail) => detail,
            ChatFailure::Server(status) => "Server error "@ + decimal(status as nat),
            ChatFailure::MalformedResponse => "Bad response"@,
        }
    }
}

impl ChatError {
    /// The error as a line of text.
    pub fn message(&self) -> (text: String)
        ensures
            text@ == self@.message_text(),
    {
        match self {
            ChatError::Network(detail) => detail.clone(),
            ChatError::Server(status) => join2(
                "Server error ",
                decimal_text(*status as u64).as_str(),
            ),
            ChatError::MalformedResponse => "Bad response".to_owned(),
        }
    }
}

/// What a request comes to, given the status of the answer and the document
/// in its body, if the body is one: the reply, or the failure.
pub open spec fn ask_outcome(status: u16, document: Option<Json>) -> Result<Seq<char>, ChatFailure> {
    if !status_ok(status) {
        Err(ChatFailure::Server(status))
    } else {
        match document {
            Some(doc) => match reply_text(doc) {
                Some(reply) => Ok(reply),
                None => Err(ChatFailure::MalformedResponse),
            },
            None => Err(ChatFailure::MalformedResponse),
        }
    }
}

/// The outcome of a request as contracts see it.
pub open spec fn outcome_view(outcome: Result<String, ChatError>) -> Result<Seq<char>, ChatFailure> {
    match outcome {
        Ok(reply) => Ok(reply@),
        Err(error) => Err(error@),
    }
}

/// The history of a session once `prompt` was asked in it: opened with the
/// preamble if it was empty, the prompt added as the user's message, trimmed.
pub open spec fn with_prompt(
    history: Seq<MessageView>,
    preamble: Seq<char>,
    prompt: Seq<char>,
    max: nat,
) -> Seq<MessageView> {
    trimmed(
        opened(history, preamble).push(MessageView { role: Role::User, content: prompt }),
        max,
    )
}

/// The history of a session once `reply` was received in it: the reply added
/// as the assistant's message, trimmed.
pub open spec fn with_reply(history: Seq<MessageView>, reply: Seq<char>, max: nat) -> Seq<
    MessageView,
> {
    trimmed(history.push(MessageView { role: Role::Assistant, content: reply }), max)
}

/// The sessions once `prompt` was asked in `session`. No other session is
/// touched.
pub open spec fn asked(
    sessions: Map<Seq<char>, Seq<MessageView>>,
    session: Seq<char>,
    preamble: Seq<char>,
    prompt: Seq<char>,
    max: nat,
) -> Map<Seq<char>, Seq<MessageView>> {
    sessions.insert(session, with_prompt(history_of(sessions, session), preamble, prompt, max))
}

/// The sessions once `reply` was received in `session`. No other session is
/// touched.
pub open spec fn answered(
    sessions: Map<Seq<char>, Seq<MessageView>>,
    session: Seq<char>,
    reply: Seq<char>,
    max: nat,
) -> Map<Seq<char>, Seq<MessageView>> {
    sessions.insert(session, with_reply(history_of(sessions, session), reply, max))
}

/// First half of `ask`: records the prompt and hands out what is to be sent.
///
/// The session is opened if need be, the prompt is added as the user's
/// message and the history is trimmed. The returned history is a copy: the
/// store is free again while the request travels.
pub fn record_prompt(store: &mut SessionStore, session: &str, prompt: &str) -> (sent: Vec<Message>)
    ensures
        final(store)@ == asked(
            old(store)@,
            session@,
            old(store).preamble(),
            prompt@,
            old(store).max_messages(),
        ),
        history_view(sent@) == final(store).history(session@),
        sent@.len() <= old(store).max_messages(),
        final(store).max_messages() == old(store).max_messages(),
        final(store).preamble() == old(store).preamble(),
{
    store.get_or_create(session);
    store.append(session, Message::user(prompt));
    assert(store@ =~= asked(
        old(store)@,
        session@,
        old(store).preamble(),
        prompt@,
        old(store).max_messages(),
    ));
    store.snapshot(session)
}

/// Records the reply of the model in the session: added as the assistant's
/// message, then trimmed.
pub fn record_reply(store: &mut SessionStore, session: &str, reply: &str)
    ensures
        final(store)@ == answered(old(store)@, session@, reply@, old(store).max_messages()),
        final(store).history(session@).len() <= old(store).max_messages(),
        final(store).max_messages() == old(store).max_messages(),
        final(store).preamble() == old(store).preamble(),
{
    store.append(session, Message::assistant(reply));
}

/// The content type that requests are sent with.
pub const CONTENT_TYPE: &'static str = "application/json";

/// The HTTP method that requests are sent with.
pub const REQUEST_METHOD: &'static str = "POST";

/// A request that is ready to be sent, once and as it is.
#[derive(Debug, PartialEq, Eq)]
pub struct ChatRequest {
    /// The HTTP method: `REQUEST_METHOD`.
    pub method: &'static str,
    /// Where to send it.
    pub url: String,
    /// What to send, as `CONTENT_TYPE`.
    pub body: String,
}

/// What the transport error says when no body could be written for a request.
pub const UNWRITTEN_REQUEST: &'static str = "the request could not be written";

/// Makes the request for the server on `port` out of the body that was
/// written for it. Without a body there is no request: the error stands for
/// one that could not be sent.
pub fn ready_request(port: u16, written: Option<String>) -> (request: Result<
    ChatRequest,
    ChatError,
>)
    ensures
        match request {
            Ok(ready) => {
                &&& written matches Some(body)
                &&& ready.method@ == REQUEST_METHOD@
                &&& ready.url@ == completions_address(port)
                &&& ready.body@ == body@
            },
            Err(error) => written is None && error@ == ChatFailure::Network(UNWRITTEN_REQUEST@),
        },
{
    match written {
        Some(body) => Ok(ChatRequest { method: REQUEST_METHOD, url: completions_url(port), body }),
        None => Err(ChatError::Network(UNWRITTEN_REQUEST.to_owned())),
    }
}

/// First half of `ask` and of `ask_streaming`: records the prompt in the
/// session and makes the request for the server on `port`. Its body is what
/// `serde_json` writes for the whole history as it then stands.
///
/// The prompt is recorded whether or not a body could be written. Where none
/// could, the error stands for a request that could not be sent.
pub fn begin_ask(
    store: &mut SessionStore,
    port: u16,
    session: &str,
    prompt: &str,
    stream: bool,
) -> (request: Result<ChatRequest, ChatError>)
    ensures
        final(store)@ == asked(
            old(store)@,
            session@,
            old(store).preamble(),
            prompt@,
            old(store).max_messages(),
        ),
        final(store).max_messages() == old(store).max_messages(),
        final(store).preamble() == old(store).preamble(),
        match request {
            Ok(ready) => {
                &&& ready.method@ == REQUEST_METHOD@
                &&& ready.url@ == completions_address(port)
                &&& json_text(request_doc(final(store).history(session@), stream)) == Some(
                    ready.body@,
                )
            },
            Err(error) => {
                &&& json_text(request_doc(final(store).history(session@), stream)) is None
                &&& error@ == ChatFailure::Network(UNWRITTEN_REQUEST@)
            },
        },
{
    let sent = record_prompt(store, session, prompt);
    ready_request(port, request_body(&sent, stream))
}

/// Second half of `ask`, on an answer whose body has been parsed already:
/// decides between reply and failure, and records the reply.
///
/// A status that is no success fails with that status. A body that is no
/// document, or has no reply in it, fails as malformed. Nothing is recorded on
/// failure.
pub fn complete_ask(
    store: &mut SessionStore,
    session: &str,
    status: u16,
    document: Option<Value>,
) -> (outcome: Result<String, ChatError>)
    ensures
        outcome_view(outcome) == ask_outcome(
            status,
            match document {
                Some(value) => Some(json_model(value)),
                None => None,
            },
        ),
        final(store)@ == match outcome {
            Ok(reply) => answered(old(store)@, session@, reply@, old(store).max_messages()),
            Err(_) => old(store)@,
        },
        final(store).max_messages() == old(store).max_messages(),
        final(store).preamble() == old(store).preamble(),
{
    if !is_success(status) {
        return Err(ChatError::Server(status));
    }
    let reply = match &document {
        Some(value) => reply_content(value),
        None => None,
    };
    match reply {
        Some(text) => {
            record_reply(store, session, text.as_str());
            Ok(text)
        },
        None => Err(ChatError::MalformedResponse),
    }
}

/// Second half of `ask`: takes the status and the body of the answer, decides
/// between reply and failure, and records the reply.
pub fn finish_ask(store: &mut SessionStore, session: &str, status: u16, body: &[u8]) -> (outcome:
    Result<String, ChatError>)
    ensures
        outcome_view(outcome) == ask_outcome(status, json_parse(body@)),
        final(store)@ == match outcome {
            Ok(reply) => answered(old(store)@, session@, reply@, old(store).max_messages()),
            Err(_) => old(store)@,
        },
        final(store).max_messages() == old(store).max_messages(),
        final(store).preamble() == old(store).preamble(),
{
    let document = if is_success(status) {
        parse_json(body)
    } else {
        None
    };
    complete_ask(store, session, status, document)
}

/// Decides on the status of a streamed answer before its body is read.
pub fn check_status(status: u16) -> (checked: Result<(), ChatError>)
    ensures
        match checked {
            Ok(_) => status_ok(status),
            Err(error) => !status_ok(status) && error@ == ChatFailure::Server(status),
        },
{
    if is_success(status) {
        Ok(())
    } else {
        Err(ChatError::Server(status))
    }
}

/// One prompt with the reply it got.
pub struct Exchange {
    pub prompt: Seq<char>,
    pub reply: Seq<char>,
}

/// The history of a session after `exchanges`, each a prompt asked and a
/// reply received, one after the other.
pub open spec fn after_exchanges(
    history: Seq<MessageView>,
    preamble: Seq<char>,
    exchanges: Seq<Exchange>,
    max: nat,
) -> Seq<MessageView>
    decreases exchanges.len(),
{
    if exchanges.len() == 0 {
        history
    } else {
        with_reply(
            with_prompt(
                after_exchanges(history, preamble, exchanges.drop_last(), max),
                preamble,
                exchanges.last().prompt,
                max,
            ),
            exchanges.last().reply,
            max,
        )
    }
}

/// A conversation written out: the preamble, then for each exchange the
/// prompt as the user's message and the reply as the assistant's.
pub open spec fn transcript(preamble: Seq<char>, exchanges: Seq<Exchange>) -> Seq<MessageView> {
    Seq::new(
        1 + 2 * exchanges.len(),
        |i: int|
            if i == 0 {
                MessageView { role: Role::System, content: preamble }
            } else if i % 2 == 1 {
                MessageView { role: Role::User, content: exchanges[(i - 1) / 2].prompt }
            } else {
                MessageView { role: Role::Assistant, content: exchanges[(i - 2) / 2].reply }
            },
    )
}

/// As long as the limit is not reached, a session holds the whole
/// conversation in its order: the preamble and two messages for each
/// exchange. This is so for a session that was opened before the first
/// exchange, and for one that had no history when the first prompt came.
///
/// A session that was never opened and never asked has no history at all,
/// not even the preamble.
pub proof fn lemma_history_is_the_transcript(
    preamble: Seq<char>,
    exchanges: Seq<Exchange>,
    max: nat,
)
    requires
        1 + 2 * exchanges.len() <= max,
    ensures
        after_exchanges(opened(Seq::empty(), preamble), preamble, exchanges, max) == transcript(
            preamble,
            exchanges,
        ),
        exchanges.len() > 0 ==> after_exchanges(Seq::empty(), preamble, exchanges, max)
            == transcript(preamble, exchanges),
        transcript(preamble, exchanges).len() == 1 + 2 * exchanges.len(),
        after_exchanges(Seq::<MessageView>::empty(), preamble, Seq::empty(), max).len() == 0,
    decreases exchanges.len(),
{
    let start = opened(Seq::<MessageView>::empty(), preamble);
    if exchanges.len() == 0 {
        assert(start =~= transcript(preamble, exchanges));
    } else {
        let before = exchanges.drop_last();
        lemma_history_is_the_transcript(preamble, before, max);
        let earlier = after_exchanges(start, preamble, before, max);
        let bare = after_exchanges(Seq::empty(), preamble, before, max);
        assert(opened(bare, preamble) == earlier);
        let asked = with_prompt(earlier, preamble, exchanges.last().prompt, max);
        let answered = with_reply(asked, exchanges.last().reply, max);
        assert(answered =~= transcript(preamble, exchanges)) by {
            assert forall|i: int| 0 <= i < answered.len() implies answered[i] == transcript(
                preamble,
                exchanges,
            )[i] by {
                if 0 < i < 1 + 2 * before.len() {
                    assert(transcript(preamble, before)[i] == transcript(preamble, exchanges)[i])
                        by {
                        if i % 2 == 1 {
                            assert(before[(i - 1) / 2] == exchanges[(i - 1) / 2]);
                        } else {
                            assert(before[(i - 2) / 2] == exchanges[(i - 2) / 2]);
                        }
                    }
                }
            }
        }
    }
}

/// However long a conversation gets, its history never holds more than the
/// limit, and what it holds is the end of what it would hold without a limit.
pub proof fn lemma_history_stays_within_limit(
    history: Seq<MessageView>,
    preamble: Seq<char>,
    prompt: Seq<char>,
    reply: Seq<char>,
    max: nat,
)
    ensures
        with_prompt(history, preamble, prompt, max).len() <= max,
        with_reply(history, reply, max).len() <= max,
        with_reply(history, reply, max) == history.push(
            MessageView { role: Role::Assistant, content: reply },
        ).skip(
            history.len() + 1 - with_reply(history, reply, max).len(),
        ),
        max > 0 ==> with_reply(history, reply, max).last() == (MessageView {
            role: Role::Assistant,
            content: reply,
        }),
        max > 0 ==> with_prompt(history, preamble, prompt, max).last() == (MessageView {
            role: Role::User,
            content: prompt,
        }),
{
    let longer = history.push(MessageView { role: Role::Assistant, content: reply });
    assert(longer.skip(0) =~= longer);
}

/// Sessions do not touch each other: what is asked or received in one session
/// leaves the history of every other session as it was, and two steps in
/// different sessions come to the same whichever is taken first.
pub proof fn lemma_sessions_are_independent(
    sessions: Map<Seq<char>, Seq<MessageView>>,
    one: Seq<char>,
    other: Seq<char>,
    preamble: Seq<char>,
    prompt: Seq<char>,
    reply: Seq<char>,
    max: nat,
)
    requires
        one != other,
    ensures
        history_of(asked(sessions, one, preamble, prompt, max), other) == history_of(
            sessions,
            other,
        ),
        history_of(answered(sessions, one, reply, max), other) == history_of(sessions, other),
        answered(asked(sessions, one, preamble, prompt, max), other, reply, max) == asked(
            answered(sessions, other, reply, max),
            one,
            preamble,
            prompt,
            max,
        ),
        asked(asked(sessions, one, preamble, prompt, max), other, preamble, reply, max) == asked(
            asked(sessions, other, preamble, reply, max),
            one,
            preamble,
            prompt,
            max,
        ),
        answered(answered(sessions, one, prompt, max), other, reply, max) == answered(
            answered(sessions, other, reply, max),
            one,
            prompt,
            max,
        ),
{
    assert(answered(asked(sessions, one, preamble, prompt, max), other, reply, max) =~= asked(
        answered(sessions, other, reply, max),
        one,
        preamble,
        prompt,
        max,
    ));
    assert(asked(asked(sessions, one, preamble, prompt, max), other, preamble, reply, max)
        =~= asked(asked(sessions, other, preamble, reply, max), one, preamble, prompt, max));
    assert(answered(answered(sessions, one, prompt, max), other, reply, max) =~= answered(
        answered(sessions, other, reply, max),
        one,
        prompt,
        max,
    ));
}

/// A request and its answer, taken together, leave the session with the
/// prompt and the reply at its end, whatever other sessions did in between.
pub proof fn lemma_ask_adds_prompt_and_reply(
    sessions: Map<Seq<char>, Seq<MessageView>>,
    session: Seq<char>,
    preamble: Seq<char>,
    prompt: Seq<char>,
    reply: Seq<char>,
    max: nat,
)
    requires
        history_of(sessions, session).len() + 3 <= max,
    ensures
        history_of(
            answered(asked(sessions, session, preamble, prompt, max), session, reply, max),
            session,
        ) == opened(history_of(sessions, session), preamble).push(
            MessageView { role: Role::User, content: prompt },
        ).push(MessageView { role: Role::Assistant, content: reply }),
{
}

} // verus!
