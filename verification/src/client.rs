//! Chat messages, the model servers they go to, and what a completion says.
use vstd::prelude::*;

use crate::config::{url, url_of, RlmConfig};
use crate::text::{begins, decimal, opt_view, truncate, truncated};
use crate::text_laws::{cutting_keeps_the_front, parts_are_found};

verus! {

/// A message of a chat.
pub struct ChatMessage {
    pub role: String,
    pub content: String,
}

/// What a message holds.
pub struct MessageView {
    pub role: Seq<char>,
    pub content: Seq<char>,
}

impl View for ChatMessage {
    type V = MessageView;

    open spec fn view(&self) -> MessageView {
        MessageView { role: self.role@, content: self.content@ }
    }
}

/// What each message of a list holds.
pub open spec fn messages_view(list: Seq<ChatMessage>) -> Seq<MessageView> {
    list.map_values(|m: ChatMessage| m@)
}

pub open spec fn message(role: Seq<char>, content: Seq<char>) -> MessageView {
    MessageView { role, content }
}

impl ChatMessage {
    /// A message of a role.
    pub fn new(role: &str, content: &str) -> (r: ChatMessage)
        ensures
            r@ == message(role@, content@),
    {
        ChatMessage { role: role.to_owned(), content: content.to_owned() }
    }
}

/// Copies a list of messages.
pub fn copy_messages(list: &Vec<ChatMessage>) -> (r: Vec<ChatMessage>)
    ensures
        messages_view(r@) == messages_view(list@),
{
    let mut r: Vec<ChatMessage> = Vec::new();
    for i in 0..list.len()
        invariant
            r@.len() == i,
            forall|j: int| 0 <= j < i ==> (#[trigger] r@[j])@ == list@[j]@,
    {
        r.push(ChatMessage::new(list[i].role.as_str(), list[i].content.as_str()));
    }
    assert(messages_view(r@) =~= messages_view(list@));
    r
}

/// A list of two messages.
pub fn two_messages(first: ChatMessage, second: ChatMessage) -> (r: Vec<ChatMessage>)
    ensures
        messages_view(r@) == seq![first@, second@],
{
    let mut r: Vec<ChatMessage> = Vec::new();
    let ghost want = seq![first@, second@];
    r.push(first);
    r.push(second);
    assert(messages_view(r@) =~= want);
    r
}

// ------------------------------------------------------------------- clients

/// A model server and how it is asked.
pub struct LlmClient {
    pub base_url: String,
    /// Without thinking, requests ask the chat template to skip the chain of thought.
    pub thinking: bool,
}

/// What a client holds.
pub struct ClientView {
    pub base_url: Seq<char>,
    pub thinking: bool,
}

impl View for LlmClient {
    type V = ClientView;

    open spec fn view(&self) -> ClientView {
        ClientView { base_url: self.base_url@, thinking: self.thinking }
    }
}

impl LlmClient {
    /// The client of the main model server.
    pub fn new(cfg: &RlmConfig) -> (r: LlmClient)
        ensures
            r@ == (ClientView { base_url: url_of(cfg.host@, cfg.port), thinking: true }),
    {
        Self::for_port(cfg, cfg.port)
    }

    /// The client of a server on a port of the configured host.
    pub fn for_port(cfg: &RlmConfig, port: u16) -> (r: LlmClient)
        ensures
            r@ == (ClientView { base_url: url_of(cfg.host@, port), thinking: true }),
    {
        LlmClient { base_url: url(cfg.host.as_str(), port), thinking: true }
    }

    /// The same client without the chain of thought.
    pub fn without_thinking(self) -> (r: LlmClient)
        ensures
            r@ == (ClientView { thinking: false, ..self@ }),
    {
        LlmClient { base_url: self.base_url, thinking: false }
    }

    /// Where the server says whether it is up.
    pub fn health_url(&self) -> (r: String)
        ensures
            r@ == self.base_url@ + "/health"@,
    {
        let mut r = self.base_url.clone();
        r.append("/health");
        r
    }

    /// The request that asks the server with a conversation. It says in any case whether there is
    /// to be a chain of thought, whatever the server's own default is.
    pub fn chat(&self, messages: Vec<ChatMessage>, max_tokens: u32) -> (r: ChatRequest)
        ensures
            r@ == chat_of(self@, messages_view(messages@), max_tokens),
    {
        let mut url = self.base_url.clone();
        url.append("/v1/chat/completions");
        ChatRequest { url, messages, max_tokens, enable_thinking: self.thinking }
    }
}

/// A request to a model server.
pub struct ChatRequest {
    pub url: String,
    pub messages: Vec<ChatMessage>,
    pub max_tokens: u32,
    pub enable_thinking: bool,
}

/// What a request holds.
pub struct ChatView {
    pub url: Seq<char>,
    pub messages: Seq<MessageView>,
    pub max_tokens: u32,
    pub enable_thinking: bool,
}

impl View for ChatRequest {
    type V = ChatView;

    open spec fn view(&self) -> ChatView {
        ChatView {
            url: self.url@,
            messages: messages_view(self.messages@),
            max_tokens: self.max_tokens,
            enable_thinking: self.enable_thinking,
        }
    }
}

/// The request that asks a server with a conversation.
pub open spec fn chat_of(client: ClientView, messages: Seq<MessageView>, max_tokens: u32) -> ChatView {
    ChatView {
        url: client.base_url + "/v1/chat/completions"@,
        messages,
        max_tokens,
        enable_thinking: client.thinking,
    }
}

/// The main model server as the root loop asks it.
pub open spec fn root_client_of(cfg: crate::config::ConfigView) -> ClientView {
    ClientView { base_url: url_of(cfg.host, cfg.port), thinking: cfg.root_thinking }
}

/// The server that answers leaf sub-calls: the worker where one is configured and up, the main
/// model otherwise.
pub open spec fn sub_client_of(cfg: crate::config::ConfigView, worker_up: bool) -> ClientView {
    match cfg.worker_port {
        Some(port) if worker_up => ClientView {
            base_url: url_of(cfg.host, port),
            thinking: cfg.worker_thinking,
        },
        _ => root_client_of(cfg),
    }
}

/// The client for the root loop and for nested loops.
pub fn root_client(cfg: &RlmConfig) -> (r: LlmClient)
    ensures
        r@ == root_client_of(cfg@),
{
    let client = LlmClient::new(cfg);
    if cfg.root_thinking {
        client
    } else {
        client.without_thinking()
    }
}

/// The client for leaf sub-calls.
pub fn sub_client(cfg: &RlmConfig, worker_up: bool) -> (r: LlmClient)
    ensures
        r@ == sub_client_of(cfg@, worker_up),
{
    if worker_up {
        if let Some(port) = cfg.worker_port {
            let worker = LlmClient::for_port(cfg, port);
            return if cfg.worker_thinking {
                worker
            } else {
                worker.without_thinking()
            };
        }
    }
    root_client(cfg)
}

/// Without a worker, or with one that is not up, every call goes to the main model.
pub proof fn without_a_worker_the_main_model_answers(cfg: crate::config::ConfigView, worker_up: bool)
    requires
        cfg.worker_port is None || !worker_up,
    ensures
        sub_client_of(cfg, worker_up) == root_client_of(cfg),
{
}

// --------------------------------------------------------------- completions

/// The string at `field` of `object` in the item at `index` of `list`, of the JSON document that
/// a text writes, as `serde_json` finds it.
pub uninterp spec fn json_text_in(
    text: Seq<char>,
    list: Seq<char>,
    index: nat,
    object: Seq<char>,
    field: Seq<char>,
) -> Option<Seq<char>>;

/// The string at `field` in the item at `index` of `list`, of the JSON document that a text
/// writes, as `serde_json` finds it.
pub uninterp spec fn json_text_at(
    text: Seq<char>,
    list: Seq<char>,
    index: nat,
    field: Seq<char>,
) -> Option<Seq<char>>;

/// The JSON document that a text writes, in the compact form of `serde_json`; none where the text
/// is no JSON document.
pub uninterp spec fn json_compact_of(text: Seq<char>) -> Option<Seq<char>>;

/// `serde_json::from_str` and the indexing of `serde_json::Value`: looks up a string, four steps
/// into the document. There is none where the text is no JSON document, where a step finds
/// nothing, or where it finds no string.
#[verifier::external_body]
fn json_string_in(text: &str, list: &str, index: usize, object: &str, field: &str) -> (r: Option<String>)
    ensures
        opt_view(r) == json_text_in(text@, list@, index as nat, object@, field@),
{
    let value: serde_json::Value = serde_json::from_str(text).ok()?;
    value[list][index][object][field].as_str().map(str::to_string)
}

/// `serde_json::from_str` and the indexing of `serde_json::Value`: looks up a string, three steps
/// into the document. There is none where the text is no JSON document, where a step finds
/// nothing, or where it finds no string.
#[verifier::external_body]
fn json_string_at(text: &str, list: &str, index: usize, field: &str) -> (r: Option<String>)
    ensures
        opt_view(r) == json_text_at(text@, list@, index as nat, field@),
{
    let value: serde_json::Value = serde_json::from_str(text).ok()?;
    value[list][index][field].as_str().map(str::to_string)
}

/// `serde_json::from_str` and `serde_json::Value::to_string`: the document in compact form. There
/// is none where the text is no JSON document.
#[verifier::external_body]
fn json_compact(text: &str) -> (r: Option<String>)
    ensures
        opt_view(r) == json_compact_of(text@),
{
    serde_json::from_str::<serde_json::Value>(text).ok().map(|value| value.to_string())
}

/// What a completion says, by its document in compact form, its content and the reason it ended.
/// An empty content is an error, as is one that is missing.
pub open spec fn outcome_of(
    compact: Option<Seq<char>>,
    content: Option<Seq<char>>,
    finish: Option<Seq<char>>,
) -> Result<Seq<char>, Seq<char>> {
    match (compact, content) {
        (None, _) => Err("llama-server returned non-JSON"@),
        (Some(document), None) => Err(
            "unexpected llama-server response: "@ + truncated(document, 500),
        ),
        (Some(_), Some(answer)) => if answer.len() == 0 {
            Err(
                "model returned empty content (finish_reason="@ + (match finish {
                    Some(reason) => reason,
                    None => "?"@,
                })
                    + "); the token budget was likely consumed by reasoning — raise max_tokens/sub_max_tokens in the config"@,
            )
        } else {
            Ok(answer)
        },
    }
}

pub open spec fn result_view(r: Result<String, String>) -> Result<Seq<char>, Seq<char>> {
    match r {
        Ok(s) => Ok(s@),
        Err(s) => Err(s@),
    }
}

/// Settles what a completion says.
pub fn completion_outcome(
    compact: Option<String>,
    content: Option<String>,
    finish: Option<String>,
) -> (r: Result<String, String>)
    ensures
        result_view(r) == outcome_of(opt_view(compact), opt_view(content), opt_view(finish)),
{
    match compact {
        None => Err("llama-server returned non-JSON".to_owned()),
        Some(document) => match content {
            None => {
                let mut e = "unexpected llama-server response: ".to_owned();
                e.append(truncate(document.as_str(), 500).as_str());
                Err(e)
            },
            Some(answer) => {
                if answer.as_str().is_empty() {
                    let mut e = "model returned empty content (finish_reason=".to_owned();
                    match finish {
                        Some(reason) => {
                            e.append(reason.as_str());
                        },
                        None => {
                            e.append("?");
                        },
                    }
                    e.append(
                        "); the token budget was likely consumed by reasoning — raise max_tokens/sub_max_tokens in the config",
                    );
                    Err(e)
                } else {
                    Ok(answer)
                }
            },
        },
    }
}

/// Reads the answer out of the body of a chat completion.
pub fn read_completion(body: &str) -> (r: Result<String, String>)
    ensures
        result_view(r) == outcome_of(
            json_compact_of(body@),
            json_text_in(body@, "choices"@, 0, "message"@, "content"@),
            json_text_at(body@, "choices"@, 0, "finish_reason"@),
        ),
{
    let compact = json_compact(body);
    let content = json_string_in(body, "choices", 0, "message", "content");
    let finish = json_string_at(body, "choices", 0, "finish_reason");
    completion_outcome(compact, content, finish)
}

// --------------------------------------------------------------------- laws

/// An answer is handed on as it came: wherever the body is a document with a content that is not
/// empty, the outcome is that content, whatever else the completion says. An empty content, a
/// content that is missing and a body that is no document are three different errors, and the first
/// names the reason that the completion gives for its end.
pub proof fn an_answer_is_handed_on(
    compact: Option<String>,
    content: Option<String>,
    finish: Option<String>,
    r: Result<String, String>,
)
    requires
        call_ensures(completion_outcome, (compact, content, finish), r),
    ensures
        r is Ok <==> compact is Some && content is Some && content->0@.len() > 0,
        r matches Ok(answer) ==> answer@ == content->0@,
        compact is None ==> r is Err && r->Err_0@ == "llama-server returned non-JSON"@,
        compact is Some && content is None ==> r is Err && begins(
            r->Err_0@,
            "unexpected llama-server response: "@,
        ) && (compact->0@.len() <= 500 ==> r->Err_0@ == "unexpected llama-server response: "@ + compact->0@),
        compact is Some && content is Some && content->0@.len() == 0 ==> r is Err && begins(
            r->Err_0@,
            "model returned empty content (finish_reason="@ + (if finish is Some {
                finish->0@
            } else {
                "?"@
            }) + ")"@,
        ),
{
    reveal_strlit("); the token budget was likely consumed by reasoning — raise max_tokens/sub_max_tokens in the config");
    reveal_strlit(")");
    if compact is Some && content is None {
        cutting_keeps_the_front(compact->0@, 500);
        parts_are_found(
            Seq::empty(),
            "unexpected llama-server response: "@,
            crate::text::truncated(compact->0@, 500),
        );
    }
    if compact is Some && content is Some && content->0@.len() == 0 {
        let reason = if finish is Some {
            finish->0@
        } else {
            "?"@
        };
        let head = "model returned empty content (finish_reason="@ + reason + ")"@;
        assert(r->Err_0@.take(head.len() as int) =~= head);
    }
}

/// What is read out of the body of a completion is what its document holds as the content of the
/// first choice's message: a body with such a content gives it unchanged, however the completion
/// came to its end.
pub proof fn a_completion_says_its_content(body: &str, r: Result<String, String>)
    requires
        call_ensures(read_completion, (body,), r),
    ensures
        ({
            let content = json_text_in(body@, "choices"@, 0, "message"@, "content"@);
            &&& r is Ok <==> json_compact_of(body@) is Some && content is Some && content->0.len() > 0
            &&& r matches Ok(answer) ==> answer@ == content->0
        }),
{
}

/// A request carries the whole conversation and nothing else, to the server that is asked, with the
/// tokens that are allowed and the choice of thinking that the client stands for.
pub proof fn a_request_carries_the_conversation(
    client: LlmClient,
    messages: Vec<ChatMessage>,
    max_tokens: u32,
    r: ChatRequest,
)
    requires
        call_ensures(LlmClient::chat, (&client, messages, max_tokens), r),
    ensures
        r.messages@.len() == messages@.len(),
        forall|i: int|
            0 <= i < messages@.len() ==> (#[trigger] r.messages@[i]).role@ == messages@[i].role@
                && r.messages@[i].content@ == messages@[i].content@,
        r.max_tokens == max_tokens,
        r.enable_thinking == client.thinking,
        r.url@ == client.base_url@ + "/v1/chat/completions"@,
{
    assert(r@.messages == messages_view(messages@));
    assert(messages_view(r.messages@).len() == messages_view(messages@).len());
    assert forall|i: int| 0 <= i < messages@.len() implies (#[trigger] r.messages@[i]).role@ == messages@[i].role@
        && r.messages@[i].content@ == messages@[i].content@ by {
        assert(messages_view(r.messages@)[i] == messages_view(messages@)[i]);
    }
}

/// The root loop asks the configured host on the main port, and sub-calls ask it on the worker's
/// port where the worker is up. Each tier thinks if and only if it is configured to.
pub proof fn tiers_are_asked_as_configured(cfg: RlmConfig, worker_up: bool, root: LlmClient, sub: LlmClient)
    requires
        call_ensures(root_client, (&cfg,), root),
        call_ensures(sub_client, (&cfg, worker_up), sub),
    ensures
        root.base_url@ == "http://"@ + cfg.host@ + ":"@ + decimal(cfg.port as nat),
        root.thinking == cfg.root_thinking,
        worker_up && cfg.worker_port is Some ==> sub.base_url@ == "http://"@ + cfg.host@ + ":"@ + decimal(
            cfg.worker_port->0 as nat,
        ) && sub.thinking == cfg.worker_thinking,
        !worker_up || cfg.worker_port is None ==> sub.base_url@ == root.base_url@ && sub.thinking
            == root.thinking,
{
    assert(root@ == root_client_of(cfg@));
    assert(sub@ == sub_client_of(cfg@, worker_up));
}

/// A client talks to a port of the configured host, and leaving the thinking out changes nothing
/// else.
pub proof fn clients_talk_to_their_port(cfg: RlmConfig, port: u16, c: LlmClient, quiet: LlmClient, health: String)
    requires
        call_ensures(LlmClient::for_port, (&cfg, port), c),
        call_ensures(LlmClient::without_thinking, (c,), quiet),
        call_ensures(LlmClient::health_url, (&c,), health),
    ensures
        c.base_url@ == "http://"@ + cfg.host@ + ":"@ + decimal(port as nat),
        c.thinking,
        quiet.base_url@ == c.base_url@ && !quiet.thinking,
        health@ == c.base_url@ + "/health"@,
{
    assert(c@.base_url == c.base_url@ && quiet@.base_url == quiet.base_url@);
}

} // verus!
