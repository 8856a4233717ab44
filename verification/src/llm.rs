//! LLM provider settings and their resolution into the endpoint, key and
//! model of an API call, and the translation between the Anthropic-shaped
//! conversation the chat keeps and the OpenAI chat format.

use vstd::prelude::*;
use vstd::string::*;

use crate::text::str_eq;

verus! {

/// Which API family a provider speaks.
#[derive(Debug, Clone, Copy, PartialEq, Eq, Structural)]
pub enum LlmProvider {
    Anthropic,
    OpenAiCompatible,
}

/// User settings of an LLM provider.
#[derive(Debug, Clone)]
pub struct LlmProviderConfig {
    pub provider: LlmProvider,
    pub api_key: Option<String>,
    pub model: Option<String>,
    pub base_url: Option<String>,
}

/// Resolved provider details ready for making an API call.
#[derive(Debug)]
pub struct ResolvedProvider {
    pub url: String,
    pub api_key: String,
    pub model: String,
    pub provider: LlmProvider,
}

/// `s` without its trailing slashes.
pub open spec fn trim_trailing_slashes(s: Seq<char>) -> Seq<char>
    decreases s.len(),
{
    if s.len() > 0 && s.last() == '/' {
        trim_trailing_slashes(s.drop_last())
    } else {
        s
    }
}

/// The configured key, when one is set and non-empty.
pub open spec fn usable_key(config: LlmProviderConfig) -> bool {
    config.api_key matches Some(k) && k@.len() > 0
}

/// The model named in the settings, or `default`.
pub open spec fn model_or(config: LlmProviderConfig, default: Seq<char>) -> Seq<char> {
    match config.model {
        Some(m) => m@,
        None => default,
    }
}

/// The base URL of an OpenAI-compatible provider: the configured one or
/// OpenAI's, without trailing slashes.
pub open spec fn openai_base(config: LlmProviderConfig) -> Seq<char> {
    trim_trailing_slashes(
        match config.base_url {
            Some(b) => b@,
            None => "https://api.openai.com/v1"@,
        },
    )
}

/// `s` up to its trailing slashes.
fn trimmed_slashes(s: &str) -> (r: String)
    ensures
        r@ == trim_trailing_slashes(s@),
{
    let mut len = s.unicode_len();
    assert(s@.take(len as int) =~= s@);
    while len > 0 && s.get_char(len - 1) == '/'
        invariant
            len <= s@.len(),
            trim_trailing_slashes(s@) == trim_trailing_slashes(s@.take(len as int)),
        decreases len,
    {
        assert(s@.take(len as int).drop_last() =~= s@.take(len - 1));
        len -= 1;
    }
    let r = String::from_str(s.substring_char(0, len));
    assert(r@ == s@.take(len as int));
    r
}

impl ResolvedProvider {
    /// Resolve a provider config into concrete URL / key / model values.
    /// Fails, with the message shown to the user, when no API key is set.
    /// `anthropic_default_model` is the model used for Anthropic when the
    /// settings name none.
    pub fn from_config(config: &LlmProviderConfig, anthropic_default_model: &str) -> (r: Result<
        Self,
        String,
    >)
        ensures
            r is Ok <==> usable_key(*config),
            r matches Err(m) ==> m@ == "No API key configured. Set it in Settings."@,
            r matches Ok(p) ==> {
                &&& config.api_key matches Some(k) && p.api_key@ == k@
                &&& p.provider == config.provider
                &&& config.provider == LlmProvider::Anthropic ==> {
                    &&& p.url@ == "https://api.anthropic.com/v1/messages"@
                    &&& p.model@ == model_or(*config, anthropic_default_model@)
                }
                &&& config.provider == LlmProvider::OpenAiCompatible ==> {
                    &&& p.url@ == openai_base(*config) + "/chat/completions"@
                    &&& p.model@ == model_or(*config, "gpt-4o"@)
                }
            },
    {
        let api_key = match &config.api_key {
            Some(k) => {
                if k.unicode_len() == 0 {
                    return Err(String::from_str("No API key configured. Set it in Settings."));
                }
                k.clone()
            },
            None => {
                return Err(String::from_str("No API key configured. Set it in Settings."));
            },
        };
        match config.provider {
            LlmProvider::Anthropic => {
                let model = match &config.model {
                    Some(m) => m.clone(),
                    None => String::from_str(anthropic_default_model),
                };
                Ok(Self {
                    url: String::from_str("https://api.anthropic.com/v1/messages"),
                    api_key,
                    model,
                    provider: LlmProvider::Anthropic,
                })
            },
            LlmProvider::OpenAiCompatible => {
                let base = match &config.base_url {
                    Some(b) => trimmed_slashes(b.as_str()),
                    None => trimmed_slashes("https://api.openai.com/v1"),
                };
                let mut url = base;
                url.append("/chat/completions");
                let model = match &config.model {
                    Some(m) => m.clone(),
                    None => String::from_str("gpt-4o"),
                };
                Ok(Self { url, api_key, model, provider: LlmProvider::OpenAiCompatible })
            },
        }
    }
}

// ── Anthropic-shaped conversation ───────────────────────────────────

/// A content block of an Anthropic-shaped message, by the fields the
/// translation reads: its `type`, `text`, `id`, `name`, `tool_use_id` and
/// `content` where they are strings, and its `input` written out as JSON.
#[derive(Debug, Clone)]
pub struct ContentBlock {
    pub kind: Option<String>,
    pub text: Option<String>,
    pub id: Option<String>,
    pub name: Option<String>,
    pub tool_use_id: Option<String>,
    pub content: Option<String>,
    pub input_json: String,
}

/// The content of a message: a plain string, an array of blocks, or
/// anything else.
#[derive(Debug, Clone)]
pub enum MessageContent {
    Text(String),
    Blocks(Vec<ContentBlock>),
    Other,
}

/// A message of the conversation, with its `role` where that is a string.
#[derive(Debug, Clone)]
pub struct ChatMessage {
    pub role: Option<String>,
    pub content: MessageContent,
}

/// A tool call of an OpenAI assistant message.
#[derive(Debug, Clone)]
pub struct OaiToolCall {
    pub id: String,
    pub name: String,
    pub arguments: String,
}

/// A message in the OpenAI chat format. An assistant message carries its
/// `content` and `tool_calls` fields only where they are present.
#[derive(Debug, Clone)]
pub enum OaiMessage {
    System { content: String },
    User { content: String },
    Tool { tool_call_id: String, content: String },
    Assistant { content: Option<String>, tool_calls: Vec<OaiToolCall> },
}

/// An optional string as an optional character sequence.
pub open spec fn opt_chars(s: Option<String>) -> Option<Seq<char>> {
    match s {
        Some(v) => Some(v@),
        None => None,
    }
}

/// The characters of an optional string, or `default` when absent.
pub open spec fn chars_or(s: Option<String>, default: Seq<char>) -> Seq<char> {
    match s {
        Some(v) => v@,
        None => default,
    }
}

/// The contents of an `OaiToolCall`.
pub ghost struct ToolCallView {
    pub id: Seq<char>,
    pub name: Seq<char>,
    pub arguments: Seq<char>,
}

/// The contents of an `OaiMessage`.
pub ghost enum OaiView {
    System(Seq<char>),
    User(Seq<char>),
    Tool(Seq<char>, Seq<char>),
    Assistant(Option<Seq<char>>, Seq<ToolCallView>),
}

impl View for OaiToolCall {
    type V = ToolCallView;

    open spec fn view(&self) -> ToolCallView {
        ToolCallView { id: self.id@, name: self.name@, arguments: self.arguments@ }
    }
}

/// Tool calls by their contents.
pub open spec fn calls_view(s: Seq<OaiToolCall>) -> Seq<ToolCallView> {
    s.map_values(|c: OaiToolCall| c@)
}

impl View for OaiMessage {
    type V = OaiView;

    open spec fn view(&self) -> OaiView {
        match self {
            OaiMessage::System { content } => OaiView::System(content@),
            OaiMessage::User { content } => OaiView::User(content@),
            OaiMessage::Tool { tool_call_id, content } => OaiView::Tool(tool_call_id@, content@),
            OaiMessage::Assistant { content, tool_calls } => OaiView::Assistant(
                opt_chars(*content),
                calls_view(tool_calls@),
            ),
        }
    }
}

/// Messages by their contents.
pub open spec fn oai_view(s: Seq<OaiMessage>) -> Seq<OaiView> {
    s.map_values(|m: OaiMessage| m@)
}

/// `parts` joined with `sep` between neighbours.
pub open spec fn join(parts: Seq<Seq<char>>, sep: Seq<char>) -> Seq<char>
    decreases parts.len(),
{
    if parts.len() == 0 {
        Seq::empty()
    } else if parts.len() == 1 {
        parts[0]
    } else {
        join(parts.drop_last(), sep) + sep + parts.last()
    }
}

/// The block is of the given type.
pub open spec fn block_is(b: ContentBlock, kind: Seq<char>) -> bool {
    b.kind matches Some(k) && k@ == kind
}

/// The tool messages for the `tool_result` blocks among `bs`, in order.
pub open spec fn tool_results(bs: Seq<ContentBlock>) -> Seq<OaiView>
    decreases bs.len(),
{
    if bs.len() == 0 {
        Seq::empty()
    } else {
        let r = tool_results(bs.drop_last());
        let b = bs.last();
        if block_is(b, "tool_result"@) {
            r.push(OaiView::Tool(chars_or(b.tool_use_id, Seq::empty()), chars_or(b.content, Seq::empty())))
        } else {
            r
        }
    }
}

/// The `text` strings of the blocks that have one, in order.
pub open spec fn block_texts(bs: Seq<ContentBlock>) -> Seq<Seq<char>>
    decreases bs.len(),
{
    if bs.len() == 0 {
        Seq::empty()
    } else {
        let r = block_texts(bs.drop_last());
        match bs.last().text {
            Some(t) => r.push(t@),
            None => r,
        }
    }
}

/// The texts of the `text` blocks that have one, in order.
pub open spec fn text_parts(bs: Seq<ContentBlock>) -> Seq<Seq<char>>
    decreases bs.len(),
{
    if bs.len() == 0 {
        Seq::empty()
    } else {
        let r = text_parts(bs.drop_last());
        let b = bs.last();
        if block_is(b, "text"@) && b.text is Some {
            r.push(b.text->0@)
        } else {
            r
        }
    }
}

/// The tool calls for the `tool_use` blocks, in order.
pub open spec fn tool_uses(bs: Seq<ContentBlock>) -> Seq<ToolCallView>
    decreases bs.len(),
{
    if bs.len() == 0 {
        Seq::empty()
    } else {
        let r = tool_uses(bs.drop_last());
        let b = bs.last();
        if block_is(b, "tool_use"@) {
            r.push(
                ToolCallView {
                    id: chars_or(b.id, Seq::empty()),
                    name: chars_or(b.name, Seq::empty()),
                    arguments: b.input_json@,
                },
            )
        } else {
            r
        }
    }
}

/// What one Anthropic-shaped message becomes in the OpenAI format. A message
/// without a role counts as the user's. A user string is a user message; a
/// user block array becomes one tool message per `tool_result` block, or,
/// when it has none, a single user message of the block texts joined by
/// newlines unless that is empty. An assistant string is an assistant
/// message; an assistant block array becomes one assistant message with the
/// `text` blocks joined by newlines (when there are any) and a tool call per
/// `tool_use` block (when there are any). Other roles and contents give
/// nothing.
pub open spec fn translate_message(m: ChatMessage) -> Seq<OaiView> {
    let role = chars_or(m.role, "user"@);
    if role == "user"@ {
        match m.content {
            MessageContent::Text(t) => seq![OaiView::User(t@)],
            MessageContent::Blocks(bs) => {
                let results = tool_results(bs@);
                if results.len() > 0 {
                    results
                } else {
                    let text = join(block_texts(bs@), "\n"@);
                    if text.len() > 0 {
                        seq![OaiView::User(text)]
                    } else {
                        Seq::empty()
                    }
                }
            },
            MessageContent::Other => Seq::empty(),
        }
    } else if role == "assistant"@ {
        match m.content {
            MessageContent::Blocks(bs) => {
                let parts = text_parts(bs@);
                seq![
                    OaiView::Assistant(
                        if parts.len() > 0 {
                            Some(join(parts, "\n"@))
                        } else {
                            None
                        },
                        tool_uses(bs@),
                    ),
                ]
            },
            MessageContent::Text(t) => seq![OaiView::Assistant(Some(t@), Seq::empty())],
            MessageContent::Other => Seq::empty(),
        }
    } else {
        Seq::empty()
    }
}

/// The translations of `ms[..k]`, one after the other.
pub open spec fn translate_prefix(ms: Seq<ChatMessage>, k: int) -> Seq<OaiView>
    decreases k,
{
    if k <= 0 || k > ms.len() {
        Seq::empty()
    } else {
        translate_prefix(ms, k - 1) + translate_message(ms[k - 1])
    }
}

/// The OpenAI message list for a system prompt and a conversation: the
/// system message, then each message's translation in order.
pub open spec fn openai_messages_spec(system_prompt: Seq<char>, ms: Seq<ChatMessage>) -> Seq<OaiView> {
    seq![OaiView::System(system_prompt)] + translate_prefix(ms, ms.len() as int)
}

/// The characters of an optional string, or an empty string.
fn string_or_empty(s: &Option<String>) -> (r: String)
    ensures
        r@ == chars_or(*s, Seq::empty()),
{
    match s {
        Some(v) => v.clone(),
        None => String::new(),
    }
}

/// Whether a block is of the given type.
fn block_is_exec(b: &ContentBlock, kind: &str) -> (r: bool)
    ensures
        r == block_is(*b, kind@),
{
    match &b.kind {
        Some(k) => str_eq(k.as_str(), kind),
        None => false,
    }
}

/// Strings joined with `sep` between neighbours.
fn join_strings(parts: &Vec<String>, sep: &str) -> (r: String)
    ensures
        r@ == join(parts@.map_values(|p: String| p@), sep@),
{
    let ghost pv = parts@.map_values(|p: String| p@);
    let mut r = String::new();
    let mut i: usize = 0;
    while i < parts.len()
        invariant
            i <= parts@.len(),
            pv == parts@.map_values(|p: String| p@),
            r@ == join(pv.subrange(0, i as int), sep@),
        decreases parts@.len() - i,
    {
        assert(pv.subrange(0, i + 1).drop_last() =~= pv.subrange(0, i as int));
        if i > 0 {
            r.append(sep);
        } else {
            assert(pv.subrange(0, 0) =~= Seq::<Seq<char>>::empty());
        }
        r.append(parts[i].as_str());
        i += 1;
    }
    assert(pv.subrange(0, i as int) =~= pv);
    r
}

/// Appends the translation of one message.
fn translate_one(m: &ChatMessage, out: &mut Vec<OaiMessage>)
    ensures
        oai_view(final(out)@) == oai_view(old(out)@) + translate_message(*m),
{
    let ghost o0 = oai_view(out@);
    let is_user = match &m.role {
        Some(r) => str_eq(r.as_str(), "user"),
        None => true,
    };
    if is_user {
        match &m.content {
            MessageContent::Text(t) => {
                out.push(OaiMessage::User { content: t.clone() });
                assert(oai_view(out@) =~= o0 + translate_message(*m));
            },
            MessageContent::Blocks(bs) => {
                let mut found: usize = 0;
                let mut texts: Vec<String> = Vec::new();
                let mut i: usize = 0;
                while i < bs.len()
                    invariant
                        i <= bs@.len(),
                        oai_view(out@) == o0 + tool_results(bs@.subrange(0, i as int)),
                        found == tool_results(bs@.subrange(0, i as int)).len(),
                        found <= i,
                        texts@.map_values(|p: String| p@) == block_texts(bs@.subrange(0, i as int)),
                    decreases bs@.len() - i,
                {
                    assert(bs@.subrange(0, i + 1).drop_last() =~= bs@.subrange(0, i as int));
                    let b = &bs[i];
                    assert(bs@.subrange(0, i + 1).last() == bs@[i as int]);
                    if block_is_exec(b, "tool_result") {
                        let ghost before = oai_view(out@);
                        let msg = OaiMessage::Tool {
                            tool_call_id: string_or_empty(&b.tool_use_id),
                            content: string_or_empty(&b.content),
                        };
                        assert(msg@ == OaiView::Tool(
                            chars_or(bs@[i as int].tool_use_id, Seq::empty()),
                            chars_or(bs@[i as int].content, Seq::empty()),
                        ));
                        out.push(msg);
                        assert(oai_view(out@) =~= before.push(msg@));
                        found = found + 1;
                        assert(oai_view(out@) =~= o0 + tool_results(bs@.subrange(0, i + 1)));
                    }
                    match &b.text {
                        Some(t) => {
                            let ghost before = texts@.map_values(|p: String| p@);
                            texts.push(t.clone());
                            assert(texts@.map_values(|p: String| p@) =~= before.push(t@));
                        },
                        None => {},
                    }
                    i += 1;
                }
                assert(bs@.subrange(0, i as int) =~= bs@);
                if found == 0 {
                    assert(oai_view(out@) =~= o0);
                    let text = join_strings(&texts, "\n");
                    if text.unicode_len() > 0 {
                        out.push(OaiMessage::User { content: text });
                    }
                }
                assert(oai_view(out@) =~= o0 + translate_message(*m));
            },
            MessageContent::Other => {
                assert(oai_view(out@) =~= o0 + translate_message(*m));
            },
        }
    } else {
        let is_assistant = match &m.role {
            Some(r) => str_eq(r.as_str(), "assistant"),
            None => false,
        };
        if is_assistant {
            match &m.content {
                MessageContent::Blocks(bs) => {
                    let mut parts: Vec<String> = Vec::new();
                    let mut calls: Vec<OaiToolCall> = Vec::new();
                    let mut i: usize = 0;
                    while i < bs.len()
                        invariant
                            i <= bs@.len(),
                            parts@.map_values(|p: String| p@) == text_parts(bs@.subrange(0, i as int)),
                            calls_view(calls@) == tool_uses(bs@.subrange(0, i as int)),
                        decreases bs@.len() - i,
                    {
                        assert(bs@.subrange(0, i + 1).drop_last() =~= bs@.subrange(0, i as int));
                        let b = &bs[i];
                        if block_is_exec(b, "text") {
                            match &b.text {
                                Some(t) => {
                                    let ghost before = parts@.map_values(|p: String| p@);
                                    parts.push(t.clone());
                                    assert(parts@.map_values(|p: String| p@) =~= before.push(t@));
                                },
                                None => {},
                            }
                        }
                        if block_is_exec(b, "tool_use") {
                            let ghost before = calls_view(calls@);
                            calls.push(
                                OaiToolCall {
                                    id: string_or_empty(&b.id),
                                    name: string_or_empty(&b.name),
                                    arguments: b.input_json.clone(),
                                },
                            );
                            assert(calls_view(calls@) =~= tool_uses(bs@.subrange(0, i + 1)));
                        }
                        i += 1;
                    }
                    assert(bs@.subrange(0, i as int) =~= bs@);
                    let content = if parts.len() > 0 {
                        Some(join_strings(&parts, "\n"))
                    } else {
                        None
                    };
                    out.push(OaiMessage::Assistant { content, tool_calls: calls });
                    assert(oai_view(out@) =~= o0 + translate_message(*m));
                },
                MessageContent::Text(t) => {
                    let calls: Vec<OaiToolCall> = Vec::new();
                    assert(calls_view(calls@) =~= Seq::empty());
                    out.push(OaiMessage::Assistant { content: Some(t.clone()), tool_calls: calls });
                    assert(oai_view(out@) =~= o0 + translate_message(*m));
                },
                MessageContent::Other => {
                    assert(oai_view(out@) =~= o0 + translate_message(*m));
                },
            }
        } else {
            assert(oai_view(out@) =~= o0 + translate_message(*m));
        }
    }
}

/// The OpenAI message list for a system prompt and an Anthropic-shaped
/// conversation: the system message first, then each message translated
/// in order (see `translate_message`).
pub fn openai_messages(system_prompt: &str, messages: &[ChatMessage]) -> (r: Vec<OaiMessage>)
    ensures
        oai_view(r@) == openai_messages_spec(system_prompt@, messages@),
{
    let mut out: Vec<OaiMessage> = Vec::new();
    out.push(OaiMessage::System { content: String::from_str(system_prompt) });
    let mut i: usize = 0;
    while i < messages.len()
        invariant
            i <= messages@.len(),
            oai_view(out@) == seq![OaiView::System(system_prompt@)] + translate_prefix(messages@, i as int),
        decreases messages@.len() - i,
    {
        let ghost before = oai_view(out@);
        translate_one(&messages[i], &mut out);
        assert(oai_view(out@) =~= seq![OaiView::System(system_prompt@)] + translate_prefix(messages@, i + 1));
        i += 1;
    }
    out
}

// ── OpenAI replies ──────────────────────────────────────────────────

/// A tool call of an OpenAI reply, by the fields read: its `id`, and its
/// function's `name` and `arguments`, where they are strings.
#[derive(Debug, Clone)]
pub struct OaiReplyCall {
    pub id: Option<String>,
    pub name: Option<String>,
    pub arguments: Option<String>,
}

/// The message of an OpenAI reply choice: its `content` where that is a
/// string, and its tool calls (none when `tool_calls` is not an array).
#[derive(Debug, Clone)]
pub struct OaiReplyMessage {
    pub content: Option<String>,
    pub tool_calls: Vec<OaiReplyCall>,
}

/// The first choice of an OpenAI reply: its `finish_reason` where that is
/// a string, and its message, if present.
#[derive(Debug, Clone)]
pub struct OaiChoice {
    pub finish_reason: Option<String>,
    pub message: Option<OaiReplyMessage>,
}

/// A content block of a reply in the Anthropic shape. A tool use carries
/// its input as JSON text.
#[derive(Debug, Clone)]
pub enum ReplyBlock {
    Text(String),
    ToolUse { id: String, name: String, input_json: String },
}

/// The contents of a `ReplyBlock`.
pub ghost enum ReplyView {
    Text(Seq<char>),
    ToolUse(Seq<char>, Seq<char>, Seq<char>),
}

impl View for ReplyBlock {
    type V = ReplyView;

    open spec fn view(&self) -> ReplyView {
        match self {
            ReplyBlock::Text(t) => ReplyView::Text(t@),
            ReplyBlock::ToolUse { id, name, input_json } => ReplyView::ToolUse(id@, name@, input_json@),
        }
    }
}

/// Blocks by their contents.
pub open spec fn replies_view(s: Seq<ReplyBlock>) -> Seq<ReplyView> {
    s.map_values(|b: ReplyBlock| b@)
}

/// The Anthropic stop reason for an OpenAI finish reason.
pub open spec fn stop_reason_for(finish: Seq<char>) -> Seq<char> {
    if finish == "tool_calls"@ {
        "tool_use"@
    } else if finish == "stop"@ {
        "end_turn"@
    } else if finish == "length"@ {
        "max_tokens"@
    } else {
        finish
    }
}

/// The tool-use block of a reply tool call: missing ids and names are
/// empty, missing arguments an empty JSON object.
pub open spec fn tool_use_of(c: OaiReplyCall) -> ReplyView {
    ReplyView::ToolUse(chars_or(c.id, Seq::empty()), chars_or(c.name, Seq::empty()), chars_or(c.arguments, "{}"@))
}

/// The blocks of a reply message: its text when non-empty, then a tool use
/// per tool call, in order.
pub open spec fn reply_blocks(m: OaiReplyMessage) -> Seq<ReplyView> {
    let text: Seq<ReplyView> = match m.content {
        Some(t) => if t@.len() > 0 {
            seq![ReplyView::Text(t@)]
        } else {
            Seq::empty()
        },
        None => Seq::empty(),
    };
    text + m.tool_calls@.map_values(|c: OaiReplyCall| tool_use_of(c))
}

/// Reads the first choice of an OpenAI reply into Anthropic-shaped blocks
/// and a stop reason. Fails when the reply has no choice, or the choice no
/// message; a missing finish reason counts as `stop`.
pub fn from_openai_reply(choice: Option<&OaiChoice>) -> (r: Result<(Vec<ReplyBlock>, String), String>)
    ensures
        match choice {
            None => r matches Err(e) && e@ == "No choices in OpenAI response"@,
            Some(c) => match c.message {
                None => r matches Err(e) && e@ == "No message in OpenAI choice"@,
                Some(m) => r matches Ok(ok) && replies_view(ok.0@) == reply_blocks(m) && ok.1@
                    == stop_reason_for(chars_or(c.finish_reason, "stop"@)),
            },
        },
{
    let c = match choice {
        None => {
            return Err(String::from_str("No choices in OpenAI response"));
        },
        Some(c) => c,
    };
    let finish: &str = match &c.finish_reason {
        Some(f) => f.as_str(),
        None => "stop",
    };
    let m = match &c.message {
        None => {
            return Err(String::from_str("No message in OpenAI choice"));
        },
        Some(m) => m,
    };
    let mut blocks: Vec<ReplyBlock> = Vec::new();
    match &m.content {
        Some(t) => {
            if t.unicode_len() > 0 {
                blocks.push(ReplyBlock::Text(t.clone()));
            }
        },
        None => {},
    }
    let ghost head = replies_view(blocks@);
    let ghost calls = m.tool_calls@.map_values(|c: OaiReplyCall| tool_use_of(c));
    let mut i: usize = 0;
    while i < m.tool_calls.len()
        invariant
            i <= m.tool_calls@.len(),
            calls == m.tool_calls@.map_values(|c: OaiReplyCall| tool_use_of(c)),
            replies_view(blocks@) =~= head + calls.subrange(0, i as int),
        decreases m.tool_calls@.len() - i,
    {
        let tc = &m.tool_calls[i];
        let args = match &tc.arguments {
            Some(a) => a.clone(),
            None => String::from_str("{}"),
        };
        let b = ReplyBlock::ToolUse { id: string_or_empty(&tc.id), name: string_or_empty(&tc.name), input_json: args };
        assert(b@ == calls[i as int]);
        let ghost before = replies_view(blocks@);
        blocks.push(b);
        assert(replies_view(blocks@) =~= before.push(b@));
        assert(calls.subrange(0, i + 1) =~= calls.subrange(0, i as int).push(calls[i as int]));
        i += 1;
    }
    assert(calls.subrange(0, i as int) =~= calls);
    let stop = if str_eq(finish, "tool_calls") {
        String::from_str("tool_use")
    } else if str_eq(finish, "stop") {
        String::from_str("end_turn")
    } else if str_eq(finish, "length") {
        String::from_str("max_tokens")
    } else {
        String::from_str(finish)
    };
    Ok((blocks, stop))
}

} // verus!
