//! Chat with AI providers (OpenAI, DeepSeek, Anthropic, Gemini).
//!
//! The HTTP exchange itself happens outside; this module decides everything around it: whether
//! a request may go out, where it goes and how it authenticates, which messages it carries in
//! each provider's terms, how a reply becomes a response, and how a server-sent event stream is
//! cut into events and turned into deltas.
use vstd::prelude::*;
use crate::utf8_stream::{decode_available, lemma_chunked_decoding, left_over, ready_part, stream_text};
use vstd::utf8::valid_utf8;
use crate::text::{
    concat2, concat3, decimal, decimal_string, from_chars, owned, push_str, slice_chars, str_eq,
    to_chars, trim, trim_end_char, trim_end_char_spec, trim_spec,
};

verus! {

/// Who wrote a chat message.
#[derive(Clone, Copy, Debug, PartialEq, Eq, Structural)]
pub enum ChatRole {
    System,
    User,
    Assistant,
}

/// The role's name in OpenAI-compatible requests.
pub open spec fn openai_role(r: ChatRole) -> Seq<char> {
    match r {
        ChatRole::System => "system"@,
        ChatRole::User => "user"@,
        ChatRole::Assistant => "assistant"@,
    }
}

impl ChatRole {
    /// The role's name in OpenAI-compatible requests.
    pub fn as_openai_str(self) -> (res: &'static str)
        ensures
            res@ == openai_role(self),
    {
        proof {
            reveal_strlit("system");
            reveal_strlit("user");
            reveal_strlit("assistant");
        }
        match self {
            ChatRole::System => "system",
            ChatRole::User => "user",
            ChatRole::Assistant => "assistant",
        }
    }
}

/// A chat message.
#[derive(Debug)]
pub struct ChatMessage {
    pub role: ChatRole,
    pub content: String,
}

impl Clone for ChatMessage {
    fn clone(&self) -> (res: Self)
        ensures
            res == *self,
    {
        ChatMessage { role: self.role, content: self.content.clone() }
    }
}

/// The assistant's reply: its text, and the reasoning some models return beside it.
#[derive(Debug)]
pub struct ChatResponse {
    pub content: String,
    pub reasoning: Option<String>,
}

impl Default for ChatResponse {
    fn default() -> (res: Self)
        ensures
            res.content@ == Seq::<char>::empty(),
            res.reasoning is None,
    {
        ChatResponse { content: String::new(), reasoning: None }
    }
}

/// Why a chat request failed.
#[derive(Debug)]
pub enum AiError {
    /// The API key is empty.
    MissingKey,
    /// The request could not be sent or read.
    Http(String),
    /// The reply could not be parsed.
    Parse(String),
    /// The provider answered with an error status.
    Provider { status: u16, body: String },
}

/// The message shown for an error.
pub open spec fn ai_error_message(e: AiError) -> Seq<char> {
    match e {
        AiError::MissingKey => "API key 为空"@,
        AiError::Http(s) => "HTTP 请求失败: "@ + s@,
        AiError::Parse(s) => "响应解析失败: "@ + s@,
        AiError::Provider { status, body } => "供应商返回错误 ("@ + decimal(status as nat) + "): "@
            + body@,
    }
}

impl AiError {
    /// The message shown for the error.
    pub fn message(&self) -> (res: String)
        ensures
            res@ == ai_error_message(*self),
    {
        match self {
            AiError::MissingKey => owned("API key 为空"),
            AiError::Http(s) => concat2("HTTP 请求失败: ", s.as_str()),
            AiError::Parse(s) => concat2("响应解析失败: ", s.as_str()),
            AiError::Provider { status, body } => {
                let d = decimal_string(*status as u64);
                let head = concat3("供应商返回错误 (", d.as_str(), "): ");
                concat2(head.as_str(), body.as_str())
            },
        }
    }
}

/// A piece of a streamed reply.
#[derive(Debug)]
pub enum StreamEvent {
    /// More reasoning text.
    ReasoningDelta(String),
    /// More reply text.
    ContentDelta(String),
    /// The stream is over.
    Done,
}

/// The AI providers.
#[derive(Clone, Copy, Debug, PartialEq, Eq, Structural)]
pub enum AiProviderId {
    OpenAi,
    DeepSeek,
    Claude,
    Gemini,
}

// ---------------------------------------------------------------------------
// Before a request
// ---------------------------------------------------------------------------
/// Refuses a request whose API key is empty or white space.
pub fn check_api_key(api_key: &str) -> (res: Result<(), AiError>)
    ensures
        res is Err <==> trim_spec(api_key@).len() == 0,
        res matches Err(e) ==> e is MissingKey,
{
    let t = trim(to_chars(api_key).as_slice());
    if t.len() == 0 {
        Err(AiError::MissingKey)
    } else {
        Ok(())
    }
}

/// The base URL to use: the configured one without trailing slashes, or the provider's default
/// when none is configured.
pub open spec fn base_url_spec(configured: Seq<char>, default: Seq<char>) -> Seq<char> {
    if configured.len() == 0 {
        default
    } else {
        trim_end_char_spec(configured, '/')
    }
}

/// The base URL to use (`default`: the provider's).
pub fn resolve_base_url(configured: &str, default: &str) -> (res: String)
    ensures
        res@ == base_url_spec(configured@, default@),
{
    let c = to_chars(configured);
    if c.len() == 0 {
        owned(default)
    } else {
        from_chars(trim_end_char(c.as_slice(), '/').as_slice())
    }
}

/// The model to use: the configured one, or the provider's default when none is configured.
pub fn resolve_model(configured: &str, default: &str) -> (res: String)
    ensures
        res@ == if configured@.len() == 0 {
            default@
        } else {
            configured@
        },
{
    let c = to_chars(configured);
    if c.len() == 0 {
        owned(default)
    } else {
        owned(configured)
    }
}

/// How a request authenticates.
#[derive(Debug)]
pub enum ProviderAuth {
    /// `Authorization: Bearer <key>`.
    Bearer(String),
    /// `x-api-key: <key>` and `anthropic-version: 2023-06-01`.
    AnthropicKey(String),
    /// The key travels in the URL.
    InUrl,
}

/// The value of the `anthropic-version` header.
pub const ANTHROPIC_VERSION: &'static str = "2023-06-01";

/// The reply length Anthropic requests ask for (`max_tokens`).
pub const ANTHROPIC_MAX_TOKENS: u32 = 1024;

/// Where a request goes and how it authenticates.
#[derive(Debug)]
pub struct HttpTarget {
    pub url: String,
    pub auth: ProviderAuth,
}

/// The provider's operations.
#[derive(Clone, Copy, Debug, PartialEq, Eq, Structural)]
pub enum AiEndpoint {
    /// List the models (a connection test: any success status passes).
    ListModels,
    /// One reply at once.
    Chat,
    /// A reply streamed as server-sent events.
    ChatStream,
}

/// The URL of `endpoint` at provider `p`, for base URL `base`, key `key` and model `model`.
pub open spec fn endpoint_url(
    p: AiProviderId,
    endpoint: AiEndpoint,
    base: Seq<char>,
    key: Seq<char>,
    model: Seq<char>,
) -> Seq<char> {
    match endpoint {
        AiEndpoint::ListModels => match p {
            AiProviderId::Gemini => base + "/models?key="@ + key,
            _ => base + "/models"@,
        },
        _ => match p {
            AiProviderId::OpenAi | AiProviderId::DeepSeek => base + "/chat/completions"@,
            AiProviderId::Claude => base + "/messages"@,
            AiProviderId::Gemini => if endpoint == AiEndpoint::Chat {
                base + "/models/"@ + model + ":generateContent?key="@ + key
            } else {
                base + "/models/"@ + model + ":streamGenerateContent?alt=sse&key="@ + key
            },
        },
    }
}

/// Where a request for `endpoint` goes, and how it authenticates.
pub fn endpoint_target(
    p: AiProviderId,
    endpoint: AiEndpoint,
    base: &str,
    key: &str,
    model: &str,
) -> (res: HttpTarget)
    ensures
        res.url@ == endpoint_url(p, endpoint, base@, key@, model@),
        match p {
            AiProviderId::OpenAi | AiProviderId::DeepSeek => res.auth matches ProviderAuth::Bearer(k)
                && k@ == key@,
            AiProviderId::Claude => res.auth matches ProviderAuth::AnthropicKey(k) && k@ == key@,
            AiProviderId::Gemini => res.auth is InUrl,
        },
{
    let mut v = to_chars(base);
    match endpoint {
        AiEndpoint::ListModels => match p {
            AiProviderId::Gemini => {
                push_str(&mut v, "/models?key=");
                push_str(&mut v, key);
            },
            _ => {
                push_str(&mut v, "/models");
            },
        },
        _ => match p {
            AiProviderId::OpenAi | AiProviderId::DeepSeek => {
                push_str(&mut v, "/chat/completions");
            },
            AiProviderId::Claude => {
                push_str(&mut v, "/messages");
            },
            AiProviderId::Gemini => {
                push_str(&mut v, "/models/");
                push_str(&mut v, model);
                if endpoint == AiEndpoint::Chat {
                    push_str(&mut v, ":generateContent?key=");
                } else {
                    push_str(&mut v, ":streamGenerateContent?alt=sse&key=");
                }
                push_str(&mut v, key);
            },
        },
    }
    let auth = match p {
        AiProviderId::OpenAi | AiProviderId::DeepSeek => ProviderAuth::Bearer(owned(key)),
        AiProviderId::Claude => ProviderAuth::AnthropicKey(owned(key)),
        AiProviderId::Gemini => ProviderAuth::InUrl,
    };
    HttpTarget { url: from_chars(v.as_slice()), auth }
}

/// Whether an HTTP status is a success (2xx).
pub fn is_success_status(status: u16) -> (res: bool)
    ensures
        res == (200 <= status <= 299),
{
    200 <= status && status <= 299
}


// ---------------------------------------------------------------------------
// Messages in each provider's terms
// ---------------------------------------------------------------------------
/// Anthropic and Gemini take the system messages apart from the conversation.
pub open spec fn keeps_system_apart(p: AiProviderId) -> bool {
    p == AiProviderId::Claude || p == AiProviderId::Gemini
}

/// The name of role `r` in requests to provider `p` (Anthropic and Gemini never see `System`
/// there; it would be sent as a user).
pub open spec fn wire_role(p: AiProviderId, r: ChatRole) -> Seq<char> {
    match p {
        AiProviderId::OpenAi | AiProviderId::DeepSeek => openai_role(r),
        AiProviderId::Claude => match r {
            ChatRole::Assistant => "assistant"@,
            _ => "user"@,
        },
        AiProviderId::Gemini => match r {
            ChatRole::Assistant => "model"@,
            _ => "user"@,
        },
    }
}

/// The conversation as `(role, text)` pairs in provider `p`'s terms, in order.
pub open spec fn wire_messages_spec(p: AiProviderId, ms: Seq<ChatMessage>) -> Seq<(Seq<char>, Seq<char>)>
    decreases ms.len(),
{
    if ms.len() == 0 {
        Seq::empty()
    } else {
        let prev = wire_messages_spec(p, ms.drop_last());
        let m = ms.last();
        if keeps_system_apart(p) && m.role == ChatRole::System {
            prev
        } else {
            prev.push((wire_role(p, m.role), m.content@))
        }
    }
}

/// The system messages' texts joined by blank lines, or `None` when there is none.
pub open spec fn system_prompt_spec(ms: Seq<ChatMessage>) -> Option<Seq<char>>
    decreases ms.len(),
{
    if ms.len() == 0 {
        None
    } else {
        let prev = system_prompt_spec(ms.drop_last());
        let m = ms.last();
        if m.role == ChatRole::System {
            match prev {
                None => Some(m.content@),
                Some(p) => Some(p + "\n\n"@ + m.content@),
            }
        } else {
            prev
        }
    }
}

/// The texts of `(role, text)` pairs.
pub open spec fn pairs_view(v: Seq<(String, String)>) -> Seq<(Seq<char>, Seq<char>)> {
    v.map_values(|t: (String, String)| (t.0@, t.1@))
}

fn wire_role_text(p: AiProviderId, r: ChatRole) -> (res: String)
    ensures
        res@ == wire_role(p, r),
{
    match p {
        AiProviderId::OpenAi | AiProviderId::DeepSeek => owned(r.as_openai_str()),
        AiProviderId::Claude => match r {
            ChatRole::Assistant => owned("assistant"),
            _ => owned("user"),
        },
        AiProviderId::Gemini => match r {
            ChatRole::Assistant => owned("model"),
            _ => owned("user"),
        },
    }
}

/// What each provider is sent of a conversation. OpenAI and DeepSeek get every message, in
/// order, under its own role (`system`, `user`, `assistant`). Anthropic and Gemini get the
/// messages other than the system ones, in order: an assistant's message as `assistant`
/// (Anthropic) or `model` (Gemini), a user's as `user`. The text is always the message's own.
pub proof fn lemma_wire_messages_roles(p: AiProviderId, ms: Seq<ChatMessage>)
    ensures
        (p == AiProviderId::OpenAi || p == AiProviderId::DeepSeek) ==> wire_messages_spec(p, ms) == ms.map_values(
            |m: ChatMessage|
                (
                    match m.role {
                        ChatRole::System => "system"@,
                        ChatRole::User => "user"@,
                        ChatRole::Assistant => "assistant"@,
                    },
                    m.content@,
                ),
        ),
        p == AiProviderId::Claude ==> wire_messages_spec(p, ms) == ms.filter(
            |m: ChatMessage| m.role != ChatRole::System,
        ).map_values(
            |m: ChatMessage|
                (
                    if m.role == ChatRole::Assistant {
                        "assistant"@
                    } else {
                        "user"@
                    },
                    m.content@,
                ),
        ),
        p == AiProviderId::Gemini ==> wire_messages_spec(p, ms) == ms.filter(
            |m: ChatMessage| m.role != ChatRole::System,
        ).map_values(
            |m: ChatMessage|
                (
                    if m.role == ChatRole::Assistant {
                        "model"@
                    } else {
                        "user"@
                    },
                    m.content@,
                ),
        ),
    decreases ms.len(),
{
    let keep = |m: ChatMessage| m.role != ChatRole::System;
    if ms.len() > 0 {
        lemma_wire_messages_roles(p, ms.drop_last());
        let init = ms.drop_last();
        let m = ms.last();
        assert(ms =~= init.push(m));
        init.lemma_filter_push(m, keep);
        reveal_with_fuel(Seq::filter, 1);
        let fa = |m: ChatMessage|
            (
                match m.role {
                    ChatRole::System => "system"@,
                    ChatRole::User => "user"@,
                    ChatRole::Assistant => "assistant"@,
                },
                m.content@,
            );
        assert(init.push(m).map_values(fa) =~= init.map_values(fa).push(fa(m)));
        let fc = |m: ChatMessage| (if m.role == ChatRole::Assistant { "assistant"@ } else { "user"@ }, m.content@);
        let fg = |m: ChatMessage| (if m.role == ChatRole::Assistant { "model"@ } else { "user"@ }, m.content@);
        let f0 = init.filter(keep);
        assert(f0.push(m).map_values(fc) =~= f0.map_values(fc).push(fc(m)));
        assert(f0.push(m).map_values(fg) =~= f0.map_values(fg).push(fg(m)));
    } else {
        reveal_with_fuel(Seq::filter, 1);
        assert(ms.map_values(|m: ChatMessage|
            (
                match m.role {
                    ChatRole::System => "system"@,
                    ChatRole::User => "user"@,
                    ChatRole::Assistant => "assistant"@,
                },
                m.content@,
            )) =~= Seq::<(Seq<char>, Seq<char>)>::empty());
    }
}

/// The conversation as `(role, text)` pairs in provider `p`'s terms.
pub fn wire_messages(p: AiProviderId, messages: &[ChatMessage]) -> (res: Vec<(String, String)>)
    ensures
        pairs_view(res@) == wire_messages_spec(p, messages@),
{
    let mut res: Vec<(String, String)> = Vec::new();
    let mut i: usize = 0;
    proof {
        assert(messages@.take(0) =~= Seq::<ChatMessage>::empty());
        assert(pairs_view(res@) =~= Seq::<(Seq<char>, Seq<char>)>::empty());
    }
    while i < messages.len()
        invariant
            i <= messages@.len(),
            pairs_view(res@) == wire_messages_spec(p, messages@.take(i as int)),
        decreases messages@.len() - i,
    {
        proof {
            assert(messages@.take(i + 1).drop_last() =~= messages@.take(i as int));
        }
        let m = &messages[i];
        let apart = p == AiProviderId::Claude || p == AiProviderId::Gemini;
        if !(apart && m.role == ChatRole::System) {
            let ghost before = res@;
            res.push((wire_role_text(p, m.role), m.content.clone()));
            proof {
                assert(pairs_view(res@) =~= pairs_view(before).push((wire_role(p, m.role), m.content@)));
            }
        }
        i = i + 1;
    }
    proof {
        assert(messages@.take(i as int) =~= messages@);
    }
    res
}

/// The system prompt of the conversation: the system messages joined by blank lines.
pub fn system_prompt(messages: &[ChatMessage]) -> (res: Option<String>)
    ensures
        match res {
            Some(s) => system_prompt_spec(messages@) == Some(s@),
            None => system_prompt_spec(messages@) is None,
        },
{
    let mut acc: Option<Vec<char>> = None;
    let mut i: usize = 0;
    proof {
        assert(messages@.take(0) =~= Seq::<ChatMessage>::empty());
    }
    while i < messages.len()
        invariant
            i <= messages@.len(),
            match acc {
                Some(a) => system_prompt_spec(messages@.take(i as int)) == Some(a@),
                None => system_prompt_spec(messages@.take(i as int)) is None,
            },
        decreases messages@.len() - i,
    {
        proof {
            assert(messages@.take(i + 1).drop_last() =~= messages@.take(i as int));
        }
        let m = &messages[i];
        if m.role == ChatRole::System {
            acc = match acc {
                None => Some(to_chars(m.content.as_str())),
                Some(a) => {
                    let mut a = a;
                    push_str(&mut a, "\n\n");
                    push_str(&mut a, m.content.as_str());
                    Some(a)
                },
            };
        }
        i = i + 1;
    }
    proof {
        assert(messages@.take(i as int) =~= messages@);
    }
    match acc {
        Some(a) => Some(from_chars(a.as_slice())),
        None => None,
    }
}

// ---------------------------------------------------------------------------
// Replies
// ---------------------------------------------------------------------------
/// The texts of `v` run together.
pub open spec fn joined(v: Seq<Seq<char>>) -> Seq<char>
    decreases v.len(),
{
    if v.len() == 0 {
        Seq::empty()
    } else {
        joined(v.drop_last()) + v.last()
    }
}

/// The texts of Anthropic content blocks `(type, text)` whose type is `text`.
pub open spec fn text_blocks(blocks: Seq<(Seq<char>, Seq<char>)>) -> Seq<Seq<char>>
    decreases blocks.len(),
{
    if blocks.len() == 0 {
        Seq::empty()
    } else if blocks.last().0 == "text"@ {
        text_blocks(blocks.drop_last()).push(blocks.last().1)
    } else {
        text_blocks(blocks.drop_last())
    }
}

/// The texts present among Gemini parts.
pub open spec fn present_texts(parts: Seq<Option<String>>) -> Seq<Seq<char>>
    decreases parts.len(),
{
    if parts.len() == 0 {
        Seq::empty()
    } else {
        match parts.last() {
            Some(t) => present_texts(parts.drop_last()).push(t@),
            None => present_texts(parts.drop_last()),
        }
    }
}

/// Texts run together are their concatenation, in order.
pub proof fn lemma_joined_is_concatenation(v: Seq<Seq<char>>)
    ensures
        joined(v) == v.flatten(),
    decreases v.len(),
{
    v.lemma_flatten_and_flatten_alt_are_equivalent();
    if v.len() > 0 {
        lemma_joined_is_concatenation(v.drop_last());
        v.drop_last().lemma_flatten_and_flatten_alt_are_equivalent();
    }
}

/// Anthropic's reply text is the texts of exactly its `text` blocks, in order, run together.
pub proof fn lemma_anthropic_reply_text(blocks: Seq<(Seq<char>, Seq<char>)>)
    ensures
        joined(text_blocks(blocks)) == blocks.filter(|b: (Seq<char>, Seq<char>)| b.0 == "text"@).map_values(
            |b: (Seq<char>, Seq<char>)| b.1,
        ).flatten(),
{
    lemma_text_blocks_filter(blocks);
    lemma_joined_is_concatenation(text_blocks(blocks));
}

proof fn lemma_text_blocks_filter(blocks: Seq<(Seq<char>, Seq<char>)>)
    ensures
        text_blocks(blocks) == blocks.filter(|b: (Seq<char>, Seq<char>)| b.0 == "text"@).map_values(
            |b: (Seq<char>, Seq<char>)| b.1,
        ),
    decreases blocks.len(),
{
    let is_text = |b: (Seq<char>, Seq<char>)| b.0 == "text"@;
    let text = |b: (Seq<char>, Seq<char>)| b.1;
    reveal_with_fuel(Seq::filter, 1);
    if blocks.len() > 0 {
        lemma_text_blocks_filter(blocks.drop_last());
        let init = blocks.drop_last();
        let b = blocks.last();
        assert(blocks =~= init.push(b));
        init.lemma_filter_push(b, is_text);
        let f0 = init.filter(is_text);
        assert(f0.push(b).map_values(text) =~= f0.map_values(text).push(text(b)));
    } else {
        assert(blocks.filter(is_text).map_values(text) =~= Seq::<Seq<char>>::empty());
    }
}

/// Gemini's reply text is every text present among the first candidate's parts, in order, run
/// together.
pub proof fn lemma_gemini_reply_text(parts: Seq<Option<String>>)
    ensures
        joined(present_texts(parts)) == parts.filter_map(
            |o: Option<String>|
                match o {
                    Some(t) => Some(t@),
                    None => None,
                },
        ).flatten(),
{
    lemma_present_texts_filter_map(parts);
    lemma_joined_is_concatenation(present_texts(parts));
}

proof fn lemma_present_texts_filter_map(parts: Seq<Option<String>>)
    ensures
        present_texts(parts) == parts.filter_map(
            |o: Option<String>|
                match o {
                    Some(t) => Some(t@),
                    None => None,
                },
        ),
    decreases parts.len(),
{
    if parts.len() > 0 {
        lemma_present_texts_filter_map(parts.drop_last());
        let f = |o: Option<String>|
            match o {
                Some(t) => Some(t@),
                None => None,
            };
        let prev = parts.drop_last().filter_map(f);
        match parts.last() {
            Some(t) => {
                assert(prev + seq![t@] =~= prev.push(t@));
            },
            None => {},
        }
    }
}

/// The reply of an OpenAI-compatible provider, from its first choice's message
/// `(content, reasoning)`: the content, or nothing; the reasoning when it is not empty.
pub fn openai_reply(first: Option<(Option<String>, Option<String>)>) -> (res: ChatResponse)
    ensures
        res.content@ == match first {
            Some((Some(c), _)) => c@,
            _ => Seq::<char>::empty(),
        },
        match first {
            Some((_, Some(r))) => if r@.len() > 0 {
                res.reasoning matches Some(x) && x@ == r@
            } else {
                res.reasoning is None
            },
            _ => res.reasoning is None,
        },
{
    match first {
        Some((content, reasoning)) => {
            let content = match content {
                Some(c) => c,
                None => String::new(),
            };
            let reasoning = match reasoning {
                Some(r) => if to_chars(r.as_str()).len() > 0 {
                    Some(r)
                } else {
                    None
                },
                None => None,
            };
            ChatResponse { content, reasoning }
        },
        None => ChatResponse { content: String::new(), reasoning: None },
    }
}

/// The reply of Anthropic, from its content blocks `(type, text)`: the texts of the `text` blocks
/// run together.
pub fn anthropic_reply(blocks: &[(String, String)]) -> (res: ChatResponse)
    ensures
        res.content@ == joined(text_blocks(pairs_view(blocks@))),
        res.reasoning is None,
{
    let mut out: Vec<char> = Vec::new();
    let mut i: usize = 0;
    proof {
        assert(pairs_view(blocks@).take(0) =~= Seq::<(Seq<char>, Seq<char>)>::empty());
    }
    while i < blocks.len()
        invariant
            i <= blocks@.len(),
            out@ == joined(text_blocks(pairs_view(blocks@).take(i as int))),
        decreases blocks@.len() - i,
    {
        proof {
            assert(pairs_view(blocks@).take(i + 1).drop_last() =~= pairs_view(blocks@).take(i as int));
        }
        let ghost prev = text_blocks(pairs_view(blocks@).take(i as int));
        proof {
            assert(pairs_view(blocks@).take(i + 1).last() == (blocks@[i as int].0@, blocks@[i as int].1@));
            assert(prev.push(blocks@[i as int].1@).drop_last() =~= prev);
        }
        if str_eq(blocks[i].0.as_str(), "text") {
            push_str(&mut out, blocks[i].1.as_str());
        }
        i = i + 1;
    }
    proof {
        assert(pairs_view(blocks@).take(i as int) =~= pairs_view(blocks@));
    }
    ChatResponse { content: from_chars(out.as_slice()), reasoning: None }
}

/// The reply of Gemini, from its first candidate's parts (`None` when it has none): the texts
/// present run together.
pub fn gemini_reply(parts: Option<Vec<Option<String>>>) -> (res: ChatResponse)
    ensures
        res.content@ == match parts {
            Some(ps) => joined(present_texts(ps@)),
            None => Seq::<char>::empty(),
        },
        res.reasoning is None,
{
    match parts {
        Some(ps) => ChatResponse { content: join_present(&ps), reasoning: None },
        None => ChatResponse { content: String::new(), reasoning: None },
    }
}

fn join_present(parts: &Vec<Option<String>>) -> (res: String)
    ensures
        res@ == joined(present_texts(parts@)),
{
    let mut out: Vec<char> = Vec::new();
    let mut i: usize = 0;
    proof {
        assert(parts@.take(0) =~= Seq::<Option<String>>::empty());
    }
    while i < parts.len()
        invariant
            i <= parts@.len(),
            out@ == joined(present_texts(parts@.take(i as int))),
        decreases parts@.len() - i,
    {
        proof {
            assert(parts@.take(i + 1).drop_last() =~= parts@.take(i as int));
        }
        let ghost prev = present_texts(parts@.take(i as int));
        match &parts[i] {
            Some(t) => {
                proof {
                    assert(prev.push(t@).drop_last() =~= prev);
                }
                push_str(&mut out, t.as_str());
            },
            None => {},
        }
        i = i + 1;
    }
    proof {
        assert(parts@.take(i as int) =~= parts@);
    }
    from_chars(out.as_slice())
}


// ---------------------------------------------------------------------------
// Server-sent events
// ---------------------------------------------------------------------------
/// Where the event parser stands: events found so far as `(event name, data)`, the current
/// event name and data, and the unfinished line.
pub struct SseScan {
    pub events: Seq<(Seq<char>, Seq<char>)>,
    pub event: Seq<char>,
    pub data: Seq<char>,
    pub line: Seq<char>,
}

/// `line` with its first `n` characters dropped.
pub open spec fn after(line: Seq<char>, n: int) -> Seq<char> {
    line.subrange(n, line.len() as int)
}

/// The scan after a complete line: a blank line ends the event when it has a name or data;
/// `data:` adds a data line (one leading space dropped); `event:` names the event; anything
/// else is ignored.
pub open spec fn sse_line(st: SseScan, line: Seq<char>) -> SseScan {
    if line.len() == 0 {
        if st.data.len() > 0 || st.event.len() > 0 {
            SseScan {
                events: st.events.push((st.event, st.data)),
                event: Seq::empty(),
                data: Seq::empty(),
                ..st
            }
        } else {
            SseScan { event: Seq::empty(), data: Seq::empty(), ..st }
        }
    } else if crate::text::starts_with_spec(line, "data:"@) {
        let rest0 = after(line, 5);
        let rest = if rest0.len() > 0 && rest0[0] == ' ' {
            after(rest0, 1)
        } else {
            rest0
        };
        let data = if st.data.len() > 0 {
            st.data.push('\n') + rest
        } else {
            rest
        };
        SseScan { data, ..st }
    } else if crate::text::starts_with_spec(line, "event:"@) {
        SseScan { event: trim_spec(after(line, 6)), ..st }
    } else {
        st
    }
}

/// The scan after one more character: a line break completes the line, without its trailing
/// carriage returns.
pub open spec fn sse_step(st: SseScan, c: char) -> SseScan {
    if c == '\n' {
        sse_line(SseScan { line: Seq::empty(), ..st }, trim_end_char_spec(st.line, '\r'))
    } else {
        SseScan { line: st.line.push(c), ..st }
    }
}

/// The scan after the characters of `s`, from `st`.
pub open spec fn sse_scan(st: SseScan, s: Seq<char>) -> SseScan
    decreases s.len(),
{
    if s.len() == 0 {
        st
    } else {
        sse_step(sse_scan(st, s.drop_last()), s.last())
    }
}

/// Cuts a server-sent event stream into `(event name, data)` events.
#[derive(Debug)]
pub struct SseParser {
    event: String,
    data: String,
    line: String,
    undecoded: Vec<u8>,
}

/// The parser's state: current event name, data, unfinished line.
pub struct SseView {
    pub event: Seq<char>,
    pub data: Seq<char>,
    pub line: Seq<char>,
}

impl View for SseParser {
    type V = SseView;

    closed spec fn view(&self) -> SseView {
        SseView { event: self.event@, data: self.data@, line: self.line@ }
    }
}

impl SseParser {
    /// The bytes of an unfinished character, held back until the rest of it arrives.
    pub closed spec fn undecoded(&self) -> Seq<u8> {
        self.undecoded@
    }
}

/// The scan that starts from the parser's state.
pub open spec fn scan_from(v: SseView) -> SseScan {
    SseScan { events: Seq::empty(), event: v.event, data: v.data, line: v.line }
}

/// The parser's state after a scan.
pub open spec fn scan_state(st: SseScan) -> SseView {
    SseView { event: st.event, data: st.data, line: st.line }
}

fn starts_with_lit(line: &Vec<char>, p: &str) -> (res: bool)
    ensures
        res == crate::text::starts_with_spec(line@, p@),
{
    let pc = to_chars(p);
    crate::text::starts_with(line.as_slice(), pc.as_slice())
}

impl SseParser {
    /// A parser at the start of a stream.
    pub fn new() -> (res: Self)
        ensures
            res@ == (SseView { event: Seq::empty(), data: Seq::empty(), line: Seq::empty() }),
            res.undecoded().len() == 0,
    {
        SseParser { event: String::new(), data: String::new(), line: String::new(), undecoded: Vec::new() }
    }

    /// Adds `text`, when no unfinished character is held back; returns the events it completes,
    /// in order.
    pub fn push_text(&mut self, text: &str) -> (events: Vec<(String, String)>)
        requires
            old(self).undecoded().len() == 0,
        ensures
            final(self).undecoded().len() == 0,
            pairs_view(events@) == sse_scan(scan_from(old(self)@), text@).events,
            final(self)@ == scan_state(sse_scan(scan_from(old(self)@), text@)),
    {
        let cs = to_chars(text);
        let mut event = to_chars(self.event.as_str());
        let mut data = to_chars(self.data.as_str());
        let mut line = to_chars(self.line.as_str());
        let mut events: Vec<(String, String)> = Vec::new();
        let ghost start = scan_from(old(self)@);
        proof {
            assert(cs@.take(0) =~= Seq::<char>::empty());
            assert(pairs_view(events@) =~= Seq::<(Seq<char>, Seq<char>)>::empty());
        }
        let mut i: usize = 0;
        while i < cs.len()
            invariant
                i <= cs@.len(),
                cs@ == text@,
                start == scan_from(old(self)@),
                sse_scan(start, cs@.take(i as int)) == (SseScan {
                    events: pairs_view(events@),
                    event: event@,
                    data: data@,
                    line: line@,
                }),
            decreases cs@.len() - i,
        {
            proof {
                assert(cs@.take(i + 1).drop_last() =~= cs@.take(i as int));
            }
            let c = cs[i];
            if c == '\n' {
                let l = trim_end_char(line.as_slice(), '\r');
                line = Vec::new();
                if l.len() == 0 {
                    if data.len() > 0 || event.len() > 0 {
                        let ghost before = events@;
                        events.push((from_chars(event.as_slice()), from_chars(data.as_slice())));
                        proof {
                            assert(pairs_view(events@) =~= pairs_view(before).push((event@, data@)));
                        }
                    }
                    event = Vec::new();
                    data = Vec::new();
                } else if starts_with_lit(&l, "data:") {
                    proof {
                        reveal_strlit("data:");
                    }
                    let rest0 = slice_chars(l.as_slice(), 5, l.len());
                    let rest = if rest0.len() > 0 && rest0[0] == ' ' {
                        slice_chars(rest0.as_slice(), 1, rest0.len())
                    } else {
                        rest0
                    };
                    if data.len() > 0 {
                        data.push('\n');
                    }
                    crate::text::push_chars(&mut data, rest.as_slice());
                } else if starts_with_lit(&l, "event:") {
                    proof {
                        reveal_strlit("event:");
                    }
                    let rest = slice_chars(l.as_slice(), 6, l.len());
                    event = trim(rest.as_slice());
                }
            } else {
                line.push(c);
            }
            i = i + 1;
        }
        proof {
            assert(cs@.take(i as int) =~= text@);
        }
        self.event = from_chars(event.as_slice());
        self.data = from_chars(data.as_slice());
        self.line = from_chars(line.as_slice());
        events
    }

    /// Adds bytes of the stream; returns the events they complete. A character whose bytes
    /// are not all there yet is held back until they are, so a character split between two
    /// chunks decodes as one; invalid sequences are replaced.
    pub fn push_bytes(&mut self, bytes: &[u8]) -> (events: Vec<(String, String)>)
        ensures
            pairs_view(events@) == sse_scan(
                scan_from(old(self)@),
                stream_text(ready_part(old(self).undecoded() + bytes@)),
            ).events,
            final(self)@ == scan_state(
                sse_scan(scan_from(old(self)@), stream_text(ready_part(old(self).undecoded() + bytes@))),
            ),
            final(self).undecoded() == left_over(old(self).undecoded() + bytes@),
    {
        let (text, rest) = decode_available(self.undecoded.as_slice(), bytes);
        self.undecoded = Vec::new();
        let events = self.push_text(text.as_str());
        self.undecoded = rest;
        events
    }

    /// At the end of the stream: the event still open, when it has data. An unfinished last
    /// line is not read.
    pub fn finish(&self) -> (res: Option<(String, String)>)
        ensures
            match res {
                Some((e, d)) => self@.data.len() > 0 && e@ == self@.event && d@ == self@.data,
                None => self@.data.len() == 0,
            },
    {
        if to_chars(self.data.as_str()).len() > 0 {
            Some((self.event.clone(), self.data.clone()))
        } else {
            None
        }
    }
}

/// Where the event parser cuts the stream does not matter: scanning `a` then `b` gives the
/// events and state of scanning `a + b`.
pub proof fn lemma_sse_scan_concat(st: SseScan, a: Seq<char>, b: Seq<char>)
    ensures
        sse_scan(sse_scan(st, a), b) == sse_scan(st, a + b),
    decreases b.len(),
{
    if b.len() == 0 {
        assert(a + b =~= a);
    } else {
        lemma_sse_scan_concat(st, a, b.drop_last());
        assert((a + b).drop_last() =~= a + b.drop_last());
        assert((a + b).last() == b.last());
    }
}

/// Characters other than a line break only extend the unfinished line.
proof fn lemma_sse_scan_plain(st: SseScan, x: Seq<char>)
    requires
        !x.contains('\n'),
    ensures
        sse_scan(st, x) == (SseScan { line: st.line + x, ..st }),
    decreases x.len(),
{
    if x.len() == 0 {
        assert(st.line + x =~= st.line);
    } else {
        assert(!x.drop_last().contains('\n')) by {
            if x.drop_last().contains('\n') {
                let k = choose|k: int| 0 <= k < x.drop_last().len() && x.drop_last()[k] == '\n';
                assert(x[k] == '\n');
            }
        }
        lemma_sse_scan_plain(st, x.drop_last());
        assert(x.last() != '\n') by {
            assert(x[x.len() - 1] == x.last());
        }
        let prev = sse_scan(st, x.drop_last());
        assert(sse_scan(st, x) == sse_step(prev, x.last()));
        assert((st.line + x.drop_last()).push(x.last()) =~= st.line + x);
    }
}

/// A data line ending an event is delivered whole: from a fresh event, `data: D` followed by
/// a blank line yields one event with no name and data `D` (one space after the colon is
/// dropped, any other text kept), whatever non-empty `D` holds other than line breaks.
pub proof fn lemma_sse_data_event(d: Seq<char>)
    requires
        d.len() > 0,
        !d.contains('\n'),
        !d.contains('\r'),
    ensures
        sse_scan(scan_from(SseView { event: Seq::empty(), data: Seq::empty(), line: Seq::empty() }), seq![
            'd', 'a', 't', 'a', ':', ' ',
        ] + d + seq!['\n', '\n']).events == seq![(Seq::<char>::empty(), d)],
{
    reveal_strlit("data:");
    reveal_strlit("event:");
    let st0 = scan_from(SseView { event: Seq::empty(), data: Seq::empty(), line: Seq::empty() });
    let head = seq!['d', 'a', 't', 'a', ':', ' '] + d;
    assert(!head.contains('\n')) by {
        if head.contains('\n') {
            let k = choose|k: int| 0 <= k < head.len() && head[k] == '\n';
            if k >= 6 {
                assert(d[k - 6] == '\n');
            }
        }
    }
    lemma_sse_scan_plain(st0, head);
    let s1 = sse_scan(st0, head);
    assert(s1.line =~= head);
    lemma_sse_scan_concat(st0, head, seq!['\n']);
    lemma_sse_scan_concat(st0, head + seq!['\n'], seq!['\n']);
    assert(head + seq!['\n'] + seq!['\n'] =~= seq!['d', 'a', 't', 'a', ':', ' '] + d + seq!['\n', '\n']);
    assert(seq!['\n'].drop_last() =~= Seq::<char>::empty());
    assert(head.len() > 0 && head.last() != '\r') by {
        if d.len() > 0 {
            assert(head.last() == d.last());
            assert(d[d.len() - 1] == d.last());
        }
    }
    if d.len() > 0 {
        assert(d.last() != '\r') by {
            assert(d[d.len() - 1] == d.last());
        }
    }
    assert(trim_end_char_spec(head, '\r') == head);
    assert(crate::text::starts_with_spec(head, "data:"@)) by {
        assert(head.subrange(0, 5) =~= "data:"@);
    }
    assert(after(head, 5) =~= seq![' '] + d);
    assert(after(after(head, 5), 1) =~= d);
    let s2 = sse_scan(s1, seq!['\n']);
    assert(sse_scan(s1, seq!['\n'].drop_last()) == s1);
    assert(s2 == sse_step(s1, '\n'));
    assert(after(head, 5)[0] == ' ');
    assert(s1.data.len() == 0);
    assert(s2.data =~= d);
    assert(s2.line =~= Seq::<char>::empty());
    assert(trim_end_char_spec(s2.line, '\r') =~= Seq::<char>::empty());
    assert(s2.events.len() == 0);
    let s3 = sse_scan(s2, seq!['\n']);
    assert(sse_scan(s2, seq!['\n'].drop_last()) == s2);
    assert(s3 == sse_step(s2, '\n'));
    assert(s3.events =~= seq![(Seq::<char>::empty(), d)]);
}

/// A scan's events are those it started with followed by those it found.
proof fn lemma_sse_scan_events(st: SseScan, s: Seq<char>)
    ensures
        sse_scan(st, s) == (SseScan {
            events: st.events + sse_scan(SseScan { events: Seq::empty(), ..st }, s).events,
            ..sse_scan(SseScan { events: Seq::empty(), ..st }, s)
        }),
    decreases s.len(),
{
    let st0 = SseScan { events: Seq::empty(), ..st };
    if s.len() == 0 {
        assert(st.events + st0.events =~= st.events);
    } else {
        lemma_sse_scan_events(st, s.drop_last());
        let p = sse_scan(st, s.drop_last());
        let p0 = sse_scan(st0, s.drop_last());
        let c = s.last();
        if c == '\n' {
            let l = trim_end_char_spec(p.line, '\r');
            if l.len() == 0 && (p.data.len() > 0 || p.event.len() > 0) {
                assert(st.events + p0.events.push((p0.event, p0.data)) =~= (st.events + p0.events).push(
                    (p0.event, p0.data),
                ));
            }
        }
    }
}

/// The events and state after feeding `bytes` to a parser in state `v` that holds back `held`:
/// the events found, the new state, and the bytes held back.
pub open spec fn sse_bytes(v: SseView, held: Seq<u8>, bytes: Seq<u8>) -> (
    Seq<(Seq<char>, Seq<char>)>,
    SseView,
    Seq<u8>,
) {
    let sc = sse_scan(scan_from(v), stream_text(ready_part(held + bytes)));
    (sc.events, scan_state(sc), left_over(held + bytes))
}

/// Where a valid UTF-8 stream is cut into two chunks does not matter, even inside a
/// character: feeding `a` then `c` finds the same events and ends in the same state as
/// feeding `a + c`, with nothing held back.
#[verifier::spinoff_prover]
pub proof fn lemma_sse_bytes_chunking(v: SseView, a: Seq<u8>, c: Seq<u8>)
    requires
        valid_utf8(a + c),
    ensures
        sse_bytes(v, Seq::empty(), a).0 + sse_bytes(sse_bytes(v, Seq::empty(), a).1, sse_bytes(v, Seq::empty(), a).2, c).0
            == sse_bytes(v, Seq::empty(), a + c).0,
        sse_bytes(sse_bytes(v, Seq::empty(), a).1, sse_bytes(v, Seq::empty(), a).2, c).1 == sse_bytes(
            v,
            Seq::empty(),
            a + c,
        ).1,
        sse_bytes(sse_bytes(v, Seq::empty(), a).1, sse_bytes(v, Seq::empty(), a).2, c).2.len() == 0,
        sse_bytes(v, Seq::empty(), a + c).2.len() == 0,
{
    let e = Seq::<u8>::empty();
    assert(e + a =~= a);
    assert(e + (a + c) =~= a + c);
    lemma_chunked_decoding(a, c);
    crate::utf8_stream::lemma_valid_is_not_held_back(a + c);
    assert(ready_part(a + c) =~= a + c);
    assert(left_over(a + c) =~= Seq::<u8>::empty());
    let t1 = stream_text(ready_part(a));
    let t2 = stream_text(ready_part(left_over(a) + c));
    let s1 = sse_scan(scan_from(v), t1);
    let v1 = scan_state(s1);
    lemma_sse_scan_concat(scan_from(v), t1, t2);
    assert(scan_from(v1) == SseScan { events: Seq::empty(), ..s1 });
    lemma_sse_scan_events(s1, t2);
}

// ---------------------------------------------------------------------------
// Streamed deltas
// ---------------------------------------------------------------------------
/// What a stream event stands for.
pub enum DeltaView {
    Reasoning(Seq<char>),
    Content(Seq<char>),
    Done,
}

/// What `e` stands for.
pub open spec fn delta_view(e: StreamEvent) -> DeltaView {
    match e {
        StreamEvent::ReasoningDelta(s) => DeltaView::Reasoning(s@),
        StreamEvent::ContentDelta(s) => DeltaView::Content(s@),
        StreamEvent::Done => DeltaView::Done,
    }
}

/// What the events of `v` stand for.
pub open spec fn deltas_view(v: Seq<StreamEvent>) -> Seq<DeltaView> {
    v.map_values(|e: StreamEvent| delta_view(e))
}

/// The deltas of OpenAI-compatible stream choices `(reasoning, content)`: for each choice, its
/// reasoning then its content, each when present and not empty.
pub open spec fn openai_deltas_spec(choices: Seq<(Option<String>, Option<String>)>) -> Seq<DeltaView>
    decreases choices.len(),
{
    if choices.len() == 0 {
        Seq::empty()
    } else {
        let prev = openai_deltas_spec(choices.drop_last());
        let (r, c) = choices.last();
        let with_r = match r {
            Some(x) => if x@.len() > 0 {
                prev.push(DeltaView::Reasoning(x@))
            } else {
                prev
            },
            None => prev,
        };
        match c {
            Some(x) => if x@.len() > 0 {
                with_r.push(DeltaView::Content(x@))
            } else {
                with_r
            },
            None => with_r,
        }
    }
}

/// An OpenAI-compatible stream ends with the data `[DONE]`.
pub fn is_done_marker(data: &str) -> (res: bool)
    ensures
        res == (data@ == "[DONE]"@),
{
    str_eq(data, "[DONE]")
}

fn push_if_nonempty(out: &mut Vec<StreamEvent>, s: &Option<String>, reasoning: bool)
    ensures
        deltas_view(final(out)@) == match s {
            Some(x) => if x@.len() > 0 {
                deltas_view(old(out)@).push(
                    if reasoning {
                        DeltaView::Reasoning(x@)
                    } else {
                        DeltaView::Content(x@)
                    },
                )
            } else {
                deltas_view(old(out)@)
            },
            None => deltas_view(old(out)@),
        },
{
    match s {
        Some(x) => {
            if to_chars(x.as_str()).len() > 0 {
                let e = if reasoning {
                    StreamEvent::ReasoningDelta(x.clone())
                } else {
                    StreamEvent::ContentDelta(x.clone())
                };
                let ghost before = out@;
                out.push(e);
                proof {
                    assert(deltas_view(out@) =~= deltas_view(before).push(delta_view(e)));
                }
            }
        },
        None => {},
    }
}

/// The streamed deltas of an OpenAI-compatible chunk: choice after choice, the choice's
/// reasoning (when present and not empty) as a reasoning delta, then its content (when present
/// and not empty) as a content delta.
pub proof fn lemma_openai_deltas_per_choice(choices: Seq<(Option<String>, Option<String>)>)
    ensures
        openai_deltas_spec(choices) == choices.map_values(
            |ch: (Option<String>, Option<String>)|
                (match ch.0 {
                    Some(x) => if x@.len() > 0 {
                        seq![DeltaView::Reasoning(x@)]
                    } else {
                        Seq::<DeltaView>::empty()
                    },
                    None => Seq::<DeltaView>::empty(),
                }) + (match ch.1 {
                    Some(x) => if x@.len() > 0 {
                        seq![DeltaView::Content(x@)]
                    } else {
                        Seq::<DeltaView>::empty()
                    },
                    None => Seq::<DeltaView>::empty(),
                }),
        ).flatten(),
    decreases choices.len(),
{
    let g = |ch: (Option<String>, Option<String>)|
        (match ch.0 {
            Some(x) => if x@.len() > 0 {
                seq![DeltaView::Reasoning(x@)]
            } else {
                Seq::<DeltaView>::empty()
            },
            None => Seq::<DeltaView>::empty(),
        }) + (match ch.1 {
            Some(x) => if x@.len() > 0 {
                seq![DeltaView::Content(x@)]
            } else {
                Seq::<DeltaView>::empty()
            },
            None => Seq::<DeltaView>::empty(),
        });
    let m = choices.map_values(g);
    m.lemma_flatten_and_flatten_alt_are_equivalent();
    if choices.len() > 0 {
        lemma_openai_deltas_per_choice(choices.drop_last());
        let init = choices.drop_last();
        init.map_values(g).lemma_flatten_and_flatten_alt_are_equivalent();
        assert(m.drop_last() =~= init.map_values(g));
        let prev = openai_deltas_spec(init);
        let (r, c) = choices.last();
        let with_r = match r {
            Some(x) => if x@.len() > 0 {
                prev.push(DeltaView::Reasoning(x@))
            } else {
                prev
            },
            None => prev,
        };
        let gr = match r {
            Some(x) => if x@.len() > 0 {
                seq![DeltaView::Reasoning(x@)]
            } else {
                Seq::<DeltaView>::empty()
            },
            None => Seq::<DeltaView>::empty(),
        };
        let gc = match c {
            Some(x) => if x@.len() > 0 {
                seq![DeltaView::Content(x@)]
            } else {
                Seq::<DeltaView>::empty()
            },
            None => Seq::<DeltaView>::empty(),
        };
        assert(with_r =~= prev + gr);
        assert(openai_deltas_spec(choices) =~= prev + gr + gc);
        assert(m.last() == gr + gc);
        assert(prev + (gr + gc) =~= prev + gr + gc);
    } else {
        assert(m =~= Seq::<Seq<DeltaView>>::empty());
    }
}

/// The deltas of one OpenAI-compatible stream chunk, from its choices' `(reasoning, content)`.
pub fn openai_deltas(choices: &[(Option<String>, Option<String>)]) -> (res: Vec<StreamEvent>)
    ensures
        deltas_view(res@) == openai_deltas_spec(choices@),
{
    let mut out: Vec<StreamEvent> = Vec::new();
    let mut i: usize = 0;
    proof {
        assert(choices@.take(0) =~= Seq::<(Option<String>, Option<String>)>::empty());
        assert(deltas_view(out@) =~= Seq::<DeltaView>::empty());
    }
    while i < choices.len()
        invariant
            i <= choices@.len(),
            deltas_view(out@) == openai_deltas_spec(choices@.take(i as int)),
        decreases choices@.len() - i,
    {
        proof {
            assert(choices@.take(i + 1).drop_last() =~= choices@.take(i as int));
        }
        push_if_nonempty(&mut out, &choices[i].0, true);
        push_if_nonempty(&mut out, &choices[i].1, false);
        i = i + 1;
    }
    proof {
        assert(choices@.take(i as int) =~= choices@);
    }
    out
}

/// Anthropic streams its text in `content_block_delta` events; others are passed over.
pub fn anthropic_wants_event(event: &str) -> (res: bool)
    ensures
        res == (event@ == "content_block_delta"@),
{
    str_eq(event, "content_block_delta")
}

/// The delta of an Anthropic `content_block_delta` event whose delta is `(type, text)`: its text,
/// when the type is `text_delta` and the text is not empty.
pub fn anthropic_delta(delta: Option<(String, String)>) -> (res: Option<StreamEvent>)
    ensures
        match delta {
            Some((t, x)) => if t@ == "text_delta"@ && x@.len() > 0 {
                res matches Some(e) && delta_view(e) == DeltaView::Content(x@)
            } else {
                res is None
            },
            None => res is None,
        },
{
    match delta {
        Some((t, x)) => {
            if str_eq(t.as_str(), "text_delta") && to_chars(x.as_str()).len() > 0 {
                Some(StreamEvent::ContentDelta(x))
            } else {
                None
            }
        },
        None => None,
    }
}

/// The texts present and not empty among Gemini parts, as content deltas.
pub open spec fn gemini_part_deltas(parts: Seq<Option<String>>) -> Seq<DeltaView>
    decreases parts.len(),
{
    if parts.len() == 0 {
        Seq::empty()
    } else {
        let prev = gemini_part_deltas(parts.drop_last());
        match parts.last() {
            Some(t) => if t@.len() > 0 {
                prev.push(DeltaView::Content(t@))
            } else {
                prev
            },
            None => prev,
        }
    }
}

/// The deltas of Gemini candidates, each given by its parts (`None`: no content or parts).
pub open spec fn gemini_deltas_spec(cands: Seq<Option<Vec<Option<String>>>>) -> Seq<DeltaView>
    decreases cands.len(),
{
    if cands.len() == 0 {
        Seq::empty()
    } else {
        let prev = gemini_deltas_spec(cands.drop_last());
        match cands.last() {
            Some(parts) => prev + gemini_part_deltas(parts@),
            None => prev,
        }
    }
}

/// The streamed reply of a Gemini event is every non-empty text part of every candidate, each
/// as a content delta, candidate after candidate and part after part; candidates without parts
/// and parts without text or with empty text add nothing.
pub proof fn lemma_gemini_deltas_all_parts(cands: Seq<Option<Vec<Option<String>>>>)
    ensures
        gemini_deltas_spec(cands) == cands.map_values(
            |c: Option<Vec<Option<String>>>|
                match c {
                    Some(ps) => ps@.filter_map(
                        |o: Option<String>|
                            match o {
                                Some(t) => if t@.len() > 0 {
                                    Some(DeltaView::Content(t@))
                                } else {
                                    None
                                },
                                None => None,
                            },
                    ),
                    None => Seq::<DeltaView>::empty(),
                },
        ).flatten(),
    decreases cands.len(),
{
    let f = |o: Option<String>|
        match o {
            Some(t) => if t@.len() > 0 {
                Some(DeltaView::Content(t@))
            } else {
                None
            },
            None => None,
        };
    let g = |c: Option<Vec<Option<String>>>|
        match c {
            Some(ps) => ps@.filter_map(f),
            None => Seq::<DeltaView>::empty(),
        };
    let m = cands.map_values(g);
    m.lemma_flatten_and_flatten_alt_are_equivalent();
    if cands.len() > 0 {
        lemma_gemini_deltas_all_parts(cands.drop_last());
        let init = cands.drop_last();
        init.map_values(g).lemma_flatten_and_flatten_alt_are_equivalent();
        assert(m.drop_last() =~= init.map_values(g));
        match cands.last() {
            Some(ps) => {
                lemma_part_deltas_are_texts(ps@);
            },
            None => {
                assert(m.last() =~= Seq::<DeltaView>::empty());
            },
        }
    } else {
        assert(m =~= Seq::<Seq<DeltaView>>::empty());
    }
}

/// A candidate's deltas are its non-empty part texts, in order.
proof fn lemma_part_deltas_are_texts(parts: Seq<Option<String>>)
    ensures
        gemini_part_deltas(parts) == parts.filter_map(
            |o: Option<String>|
                match o {
                    Some(t) => if t@.len() > 0 {
                        Some(DeltaView::Content(t@))
                    } else {
                        None
                    },
                    None => None,
                },
        ),
    decreases parts.len(),
{
    if parts.len() > 0 {
        lemma_part_deltas_are_texts(parts.drop_last());
        let f = |o: Option<String>|
            match o {
                Some(t) => if t@.len() > 0 {
                    Some(DeltaView::Content(t@))
                } else {
                    None
                },
                None => None,
            };
        let prev = parts.drop_last().filter_map(f);
        match parts.last() {
            Some(t) => if t@.len() > 0 {
                assert(prev + seq![DeltaView::Content(t@)] =~= prev.push(DeltaView::Content(t@)));
            },
            None => {},
        }
    }
}

/// The deltas of one Gemini stream event.
pub fn gemini_deltas(cands: &[Option<Vec<Option<String>>>]) -> (res: Vec<StreamEvent>)
    ensures
        deltas_view(res@) == gemini_deltas_spec(cands@),
{
    let mut out: Vec<StreamEvent> = Vec::new();
    let mut i: usize = 0;
    proof {
        assert(cands@.take(0) =~= Seq::<Option<Vec<Option<String>>>>::empty());
        assert(deltas_view(out@) =~= Seq::<DeltaView>::empty());
    }
    while i < cands.len()
        invariant
            i <= cands@.len(),
            deltas_view(out@) == gemini_deltas_spec(cands@.take(i as int)),
        decreases cands@.len() - i,
    {
        proof {
            assert(cands@.take(i + 1).drop_last() =~= cands@.take(i as int));
        }
        match &cands[i] {
            Some(parts) => {
                let ghost base = deltas_view(out@);
                let mut k: usize = 0;
                proof {
                    assert(parts@.take(0) =~= Seq::<Option<String>>::empty());
                    assert(base + gemini_part_deltas(parts@.take(0)) =~= base);
                }
                while k < parts.len()
                    invariant
                        k <= parts@.len(),
                        deltas_view(out@) == base + gemini_part_deltas(parts@.take(k as int)),
                    decreases parts@.len() - k,
                {
                    proof {
                        assert(parts@.take(k + 1).drop_last() =~= parts@.take(k as int));
                    }
                    let ghost before = deltas_view(out@);
                    push_if_nonempty(&mut out, &parts[k], false);
                    proof {
                        let g = gemini_part_deltas(parts@.take(k as int));
                        if let Some(t) = parts@[k as int] {
                            if t@.len() > 0 {
                                assert(base + g.push(DeltaView::Content(t@)) =~= (base + g).push(
                                    DeltaView::Content(t@),
                                ));
                            }
                        }
                    }
                    k = k + 1;
                }
                proof {
                    assert(parts@.take(k as int) =~= parts@);
                }
            },
            None => {},
        }
        i = i + 1;
    }
    proof {
        assert(cands@.take(i as int) =~= cands@);
    }
    out
}

} // verus!
