//! LLM integration: the message types, how a provider's endpoint URL and
//! system prompt are formed, and the fallback policy across providers.
//!
//! The network calls themselves are made around the library; the fallback
//! policy stands here as a state machine that is told the outcome of each
//! attempt and answers with the next step.

use vstd::prelude::*;

use crate::error::{TdgError, TdgResult};
use crate::text::{chars_of, dec_str, join, join_seqs, owned, parse_u32, parse_u32_of, push_decimal, push_str, str_eq, substring};

verus! {

/// LLM message for chat completions.
#[derive(Debug, Clone)]
pub struct LlmMessage {
    /// "system", "user" or "assistant".
    pub role: String,
    pub content: String,
}

/// Token usage of a completion.
#[derive(Debug, Clone, Copy, Default)]
pub struct LlmUsage {
    pub prompt_tokens: u32,
    pub completion_tokens: u32,
    pub total_tokens: u32,
}

/// LLM completion response.
#[derive(Debug, Clone)]
pub struct LlmCompletionResponse {
    pub content: String,
    pub model: String,
    pub usage: LlmUsage,
}

/// `s` without its trailing `/` characters.
pub open spec fn trim_trailing_slashes(s: Seq<char>) -> Seq<char>
    decreases s.len(),
{
    if s.len() > 0 && s.last() == '/' {
        trim_trailing_slashes(s.drop_last())
    } else {
        s
    }
}

/// The URL of an endpoint under a base URL: the base without trailing
/// slashes, a slash, and the endpoint path.
pub fn endpoint_url(base_url: &str, path: &str) -> (u: String)
    ensures
        u@ == trim_trailing_slashes(base_url@) + seq!['/'] + path@,
{
    let v = chars_of(base_url);
    let mut end: usize = v.len();
    assert(v@.subrange(0, end as int) =~= v@);
    while end > 0 && v[end - 1] == '/'
        invariant
            end <= v@.len(),
            trim_trailing_slashes(v@) == trim_trailing_slashes(v@.subrange(0, end as int)),
        decreases end,
    {
        assert(v@.subrange(0, end as int).drop_last() =~= v@.subrange(0, end - 1));
        end = end - 1;
    }
    let mut u = substring(&v, 0, end);
    proof {
        assert(trim_trailing_slashes(v@.subrange(0, end as int)) == v@.subrange(0, end as int));
    }
    crate::text::push_char(&mut u, '/');
    push_str(&mut u, path);
    u
}

pub open spec fn is_system(m: LlmMessage) -> bool {
    m.role@ == "system"@
}

/// The content of the last system message, if any.
pub open spec fn last_system(ms: Seq<LlmMessage>) -> Option<Seq<char>>
    decreases ms.len(),
{
    if ms.len() == 0 {
        None
    } else if is_system(ms.last()) {
        Some(ms.last().content@)
    } else {
        last_system(ms.drop_last())
    }
}

pub open spec fn message_views(ms: Seq<LlmMessage>) -> Seq<(Seq<char>, Seq<char>)> {
    ms.map_values(|m: LlmMessage| (m.role@, m.content@))
}

/// The conversation without its system messages, or a single placeholder
/// user message when nothing else remains.
pub open spec fn conversation_of(ms: Seq<LlmMessage>) -> Seq<(Seq<char>, Seq<char>)> {
    let rest = message_views(ms.filter(|m: LlmMessage| !is_system(m)));
    if rest.len() == 0 {
        seq![("user"@, "..."@)]
    } else {
        rest
    }
}

/// Lift the system prompt out of a conversation, as the Anthropic Messages
/// API wants it: the last system message becomes the system prompt, the
/// other messages keep their order, and an empty conversation gets a
/// placeholder user message.
pub fn lift_system_messages(messages: &Vec<LlmMessage>) -> (r: (Option<String>, Vec<LlmMessage>))
    ensures
        match r.0 {
            Some(s) => last_system(messages@) == Some(s@),
            None => last_system(messages@) is None,
        },
        message_views(r.1@) == conversation_of(messages@),
{
    let ghost pred = |m: LlmMessage| !is_system(m);
    let mut system: Option<String> = None;
    let mut rest: Vec<LlmMessage> = Vec::new();
    let mut i: usize = 0;
    while i < messages.len()
        invariant
            i <= messages@.len(),
            pred == (|m: LlmMessage| !is_system(m)),
            match system {
                Some(s) => last_system(messages@.take(i as int)) == Some(s@),
                None => last_system(messages@.take(i as int)) is None,
            },
            message_views(rest@) == message_views(messages@.take(i as int).filter(pred)),
        decreases messages.len() - i,
    {
        reveal_with_fuel(Seq::filter, 1);
        let ghost t = messages@.take(i + 1);
        assert(t.drop_last() =~= messages@.take(i as int));
        assert(t.last() == messages@[i as int]);
        let m = &messages[i];
        if str_eq(m.role.as_str(), "system") {
            system = Some(owned(m.content.as_str()));
            assert(t.filter(pred) == messages@.take(i as int).filter(pred));
        } else {
            let ghost before = message_views(rest@);
            rest.push(LlmMessage { role: owned(m.role.as_str()), content: owned(m.content.as_str()) });
            assert(t.filter(pred) == messages@.take(i as int).filter(pred).push(messages@[i as int]));
            assert(message_views(rest@) =~= before.push((m.role@, m.content@)));
            assert(message_views(t.filter(pred)) =~= message_views(messages@.take(i as int).filter(pred)).push((m.role@, m.content@)));
        }
        i = i + 1;
    }
    assert(messages@.take(messages.len() as int) =~= messages@);
    if rest.len() == 0 {
        rest.push(LlmMessage { role: owned("user"), content: owned("...") });
        assert(message_views(rest@) =~= seq![("user"@, "..."@)]);
    }
    (system, rest)
}

// ─── Requests ────────────────────────────────────────────────────────────────

/// LLM completion request. `T` is the type of the sampling temperature, a
/// value the library hands on without reading it.
#[derive(Debug, Clone)]
pub struct LlmCompletionRequest<T> {
    pub messages: Vec<LlmMessage>,
    pub model: Option<String>,
    pub temperature: Option<T>,
    pub max_tokens: Option<u32>,
}

/// OpenAI (or compatible) provider settings.
#[derive(Debug, Clone)]
pub struct OpenAiConfig<T> {
    pub api_key: Option<String>,
    pub base_url: String,
    pub model: String,
    pub max_tokens: u32,
    pub temperature: T,
}

/// Anthropic provider settings.
#[derive(Debug, Clone)]
pub struct AnthropicConfig<T> {
    pub api_key: Option<String>,
    pub base_url: String,
    pub model: String,
    pub max_tokens: u32,
    pub temperature: T,
}

/// Ollama provider settings (a local server, no key).
#[derive(Debug, Clone)]
pub struct OllamaConfig<T> {
    pub base_url: String,
    pub model: String,
    pub max_tokens: u32,
    pub temperature: T,
}

/// The body of a chat request, before it is written as the provider's JSON.
/// `system` is set only where the provider takes the system prompt apart
/// from the conversation.
#[derive(Debug, Clone)]
pub struct ChatRequestBody<T> {
    pub model: String,
    pub system: Option<String>,
    pub messages: Vec<LlmMessage>,
    pub temperature: T,
    pub max_tokens: u32,
}

/// The requested value, or the configured default.
pub open spec fn or_default<A>(requested: Option<A>, default: A) -> A {
    match requested {
        Some(a) => a,
        None => default,
    }
}

/// The requested model, or the configured one.
pub open spec fn model_for(requested: Option<String>, default: Seq<char>) -> Seq<char> {
    match requested {
        Some(m) => m@,
        None => default,
    }
}

fn copy_messages(ms: &Vec<LlmMessage>) -> (r: Vec<LlmMessage>)
    ensures
        message_views(r@) == message_views(ms@),
{
    let mut r: Vec<LlmMessage> = Vec::new();
    let mut i: usize = 0;
    while i < ms.len()
        invariant
            i <= ms@.len(),
            message_views(r@) == message_views(ms@.take(i as int)),
        decreases ms.len() - i,
    {
        let ghost before = message_views(r@);
        r.push(LlmMessage { role: owned(ms[i].role.as_str()), content: owned(ms[i].content.as_str()) });
        assert(message_views(r@) =~= before.push((ms@[i as int].role@, ms@[i as int].content@)));
        assert(message_views(ms@.take(i + 1)) =~= message_views(ms@.take(i as int)).push((ms@[i as int].role@, ms@[i as int].content@)));
        i = i + 1;
    }
    assert(ms@.take(ms.len() as int) =~= ms@);
    r
}

fn pick_model(requested: &Option<String>, default: &String) -> (m: String)
    ensures
        m@ == model_for(*requested, default@),
{
    match requested {
        Some(s) => owned(s.as_str()),
        None => owned(default.as_str()),
    }
}

fn pick_tokens(requested: Option<u32>, default: u32) -> (n: u32)
    ensures
        n == or_default(requested, default),
{
    match requested {
        Some(n) => n,
        None => default,
    }
}

fn pick_temperature<T: Copy>(requested: &Option<T>, default: &T) -> (t: T)
    ensures
        t == or_default(*requested, *default),
{
    match requested {
        Some(t) => *t,
        None => *default,
    }
}

impl<T: Copy> OpenAiConfig<T> {
    /// The chat completions body: the conversation as given, with the
    /// request's model, temperature and token limit where it sets them and
    /// the configured ones where it does not.
    pub fn request_body(&self, request: &LlmCompletionRequest<T>) -> (b: ChatRequestBody<T>)
        ensures
            b.model@ == model_for(request.model, self.model@),
            b.system is None,
            message_views(b.messages@) == message_views(request.messages@),
            b.temperature == or_default(request.temperature, self.temperature),
            b.max_tokens == or_default(request.max_tokens, self.max_tokens),
    {
        ChatRequestBody {
            model: pick_model(&request.model, &self.model),
            system: None,
            messages: copy_messages(&request.messages),
            temperature: pick_temperature(&request.temperature, &self.temperature),
            max_tokens: pick_tokens(request.max_tokens, self.max_tokens),
        }
    }
}

impl<T: Copy> OllamaConfig<T> {
    /// The `/api/chat` body (sent without streaming): the conversation as
    /// given, with the request's settings over the configured ones.
    pub fn request_body(&self, request: &LlmCompletionRequest<T>) -> (b: ChatRequestBody<T>)
        ensures
            b.model@ == model_for(request.model, self.model@),
            b.system is None,
            message_views(b.messages@) == message_views(request.messages@),
            b.temperature == or_default(request.temperature, self.temperature),
            b.max_tokens == or_default(request.max_tokens, self.max_tokens),
    {
        ChatRequestBody {
            model: pick_model(&request.model, &self.model),
            system: None,
            messages: copy_messages(&request.messages),
            temperature: pick_temperature(&request.temperature, &self.temperature),
            max_tokens: pick_tokens(request.max_tokens, self.max_tokens),
        }
    }
}

impl<T: Copy> AnthropicConfig<T> {
    /// The Messages API body: the last system message lifted out as the
    /// system prompt, the rest of the conversation (or a placeholder user
    /// message), and the request's settings over the configured ones.
    pub fn request_body(&self, request: &LlmCompletionRequest<T>) -> (b: ChatRequestBody<T>)
        ensures
            b.model@ == model_for(request.model, self.model@),
            match b.system {
                Some(s) => last_system(request.messages@) == Some(s@),
                None => last_system(request.messages@) is None,
            },
            message_views(b.messages@) == conversation_of(request.messages@),
            b.temperature == or_default(request.temperature, self.temperature),
            b.max_tokens == or_default(request.max_tokens, self.max_tokens),
    {
        let (system, messages) = lift_system_messages(&request.messages);
        ChatRequestBody {
            model: pick_model(&request.model, &self.model),
            system,
            messages,
            temperature: pick_temperature(&request.temperature, &self.temperature),
            max_tokens: pick_tokens(request.max_tokens, self.max_tokens),
        }
    }
}

// ─── Configuration ───────────────────────────────────────────────────────────

/// LLM provider configuration: the default provider ("openai",
/// "anthropic" or "ollama") and each provider's settings.
#[derive(Debug, Clone)]
pub struct LlmConfig<T> {
    pub default_provider: String,
    pub openai: OpenAiConfig<T>,
    pub anthropic: AnthropicConfig<T>,
    pub ollama: OllamaConfig<T>,
}

/// The `TDG_LLM_*` environment variables as found (None when unset); the
/// temperatures as numbers, None where unset or not a number.
#[derive(Debug, Clone)]
pub struct LlmEnv<T> {
    pub default_provider: Option<String>,
    pub openai_api_key: Option<String>,
    pub openai_base_url: Option<String>,
    pub openai_model: Option<String>,
    pub openai_max_tokens: Option<String>,
    pub openai_temperature: Option<T>,
    pub anthropic_api_key: Option<String>,
    pub anthropic_base_url: Option<String>,
    pub anthropic_model: Option<String>,
    pub anthropic_max_tokens: Option<String>,
    pub anthropic_temperature: Option<T>,
    pub ollama_url: Option<String>,
    pub ollama_model: Option<String>,
    pub ollama_max_tokens: Option<String>,
    pub ollama_temperature: Option<T>,
}

impl<T> LlmEnv<T> {
    /// An environment where none of the variables is set.
    pub fn unset() -> (e: LlmEnv<T>)
        ensures
            e.default_provider is None && e.openai_api_key is None && e.openai_base_url is None
                && e.openai_model is None && e.openai_max_tokens is None && e.openai_temperature is None
                && e.anthropic_api_key is None && e.anthropic_base_url is None && e.anthropic_model is None
                && e.anthropic_max_tokens is None && e.anthropic_temperature is None
                && e.ollama_url is None && e.ollama_model is None && e.ollama_max_tokens is None
                && e.ollama_temperature is None,
    {
        LlmEnv {
            default_provider: None,
            openai_api_key: None,
            openai_base_url: None,
            openai_model: None,
            openai_max_tokens: None,
            openai_temperature: None,
            anthropic_api_key: None,
            anthropic_base_url: None,
            anthropic_model: None,
            anthropic_max_tokens: None,
            anthropic_temperature: None,
            ollama_url: None,
            ollama_model: None,
            ollama_max_tokens: None,
            ollama_temperature: None,
        }
    }
}

/// A variable's value, or the default when it is unset.
pub open spec fn var_or(v: Option<String>, default: Seq<char>) -> Seq<char> {
    match v {
        Some(s) => s@,
        None => default,
    }
}

/// A token limit from a variable: its value where it reads as a `u32`,
/// else 4096.
pub open spec fn tokens_var(v: Option<String>) -> u32 {
    match v {
        Some(s) => match parse_u32_of(s@) {
            Some(n) => n,
            None => 4096,
        },
        None => 4096,
    }
}

pub open spec fn key_view(k: Option<String>) -> Option<Seq<char>> {
    match k {
        Some(s) => Some(s@),
        None => None,
    }
}

fn copy_opt(v: &Option<String>) -> (r: Option<String>)
    ensures
        key_view(r) == key_view(*v),
{
    match v {
        Some(s) => Some(owned(s.as_str())),
        None => None,
    }
}

fn var_or_exec(v: &Option<String>, default: &str) -> (r: String)
    ensures
        r@ == var_or(*v, default@),
{
    match v {
        Some(s) => owned(s.as_str()),
        None => owned(default),
    }
}

fn tokens_var_exec(v: &Option<String>) -> (n: u32)
    ensures
        n == tokens_var(*v),
{
    match v {
        Some(s) => match parse_u32(s.as_str()) {
            Some(n) => n,
            None => 4096,
        },
        None => 4096,
    }
}

impl<T: Copy> LlmConfig<T> {
    /// The configuration the `TDG_LLM_*` variables give, each unset variable
    /// taking its default: provider "ollama"; OpenAI at
    /// "https://api.openai.com/v1" with "gpt-4o"; Anthropic at
    /// "https://api.anthropic.com/v1" with `anthropic_default_model`; Ollama
    /// at "http://localhost:11434" with "llama3"; 4096 tokens each, and
    /// `default_temperature`.
    pub fn from_env_values(env: &LlmEnv<T>, default_temperature: T, anthropic_default_model: &str) -> (c: LlmConfig<T>)
        ensures
            c.default_provider@ == var_or(env.default_provider, "ollama"@),
            key_view(c.openai.api_key) == key_view(env.openai_api_key),
            c.openai.base_url@ == var_or(env.openai_base_url, "https://api.openai.com/v1"@),
            c.openai.model@ == var_or(env.openai_model, "gpt-4o"@),
            c.openai.max_tokens == tokens_var(env.openai_max_tokens),
            c.openai.temperature == or_default(env.openai_temperature, default_temperature),
            key_view(c.anthropic.api_key) == key_view(env.anthropic_api_key),
            c.anthropic.base_url@ == var_or(env.anthropic_base_url, "https://api.anthropic.com/v1"@),
            c.anthropic.model@ == var_or(env.anthropic_model, anthropic_default_model@),
            c.anthropic.max_tokens == tokens_var(env.anthropic_max_tokens),
            c.anthropic.temperature == or_default(env.anthropic_temperature, default_temperature),
            c.ollama.base_url@ == var_or(env.ollama_url, "http://localhost:11434"@),
            c.ollama.model@ == var_or(env.ollama_model, "llama3"@),
            c.ollama.max_tokens == tokens_var(env.ollama_max_tokens),
            c.ollama.temperature == or_default(env.ollama_temperature, default_temperature),
    {
        LlmConfig {
            default_provider: var_or_exec(&env.default_provider, "ollama"),
            openai: OpenAiConfig {
                api_key: copy_opt(&env.openai_api_key),
                base_url: var_or_exec(&env.openai_base_url, "https://api.openai.com/v1"),
                model: var_or_exec(&env.openai_model, "gpt-4o"),
                max_tokens: tokens_var_exec(&env.openai_max_tokens),
                temperature: pick_temperature(&env.openai_temperature, &default_temperature),
            },
            anthropic: AnthropicConfig {
                api_key: copy_opt(&env.anthropic_api_key),
                base_url: var_or_exec(&env.anthropic_base_url, "https://api.anthropic.com/v1"),
                model: var_or_exec(&env.anthropic_model, anthropic_default_model),
                max_tokens: tokens_var_exec(&env.anthropic_max_tokens),
                temperature: pick_temperature(&env.anthropic_temperature, &default_temperature),
            },
            ollama: OllamaConfig {
                base_url: var_or_exec(&env.ollama_url, "http://localhost:11434"),
                model: var_or_exec(&env.ollama_model, "llama3"),
                max_tokens: tokens_var_exec(&env.ollama_max_tokens),
                temperature: pick_temperature(&env.ollama_temperature, &default_temperature),
            },
        }
    }
}

impl<T> LlmConfig<T> {
    /// Whether a provider can be used: OpenAI and Anthropic when their key
    /// is set, Ollama always, any other name never.
    pub fn provider_available(&self, provider: &str) -> (b: bool)
        ensures
            b == if provider@ == "openai"@ {
                self.openai.api_key is Some
            } else if provider@ == "anthropic"@ {
                self.anthropic.api_key is Some
            } else {
                provider@ == "ollama"@
            },
    {
        if str_eq(provider, "openai") {
            self.openai.api_key.is_some()
        } else if str_eq(provider, "anthropic") {
            self.anthropic.api_key.is_some()
        } else {
            str_eq(provider, "ollama")
        }
    }
}

// ─── Provider access ─────────────────────────────────────────────────────────

/// A provider that needs a key is ready exactly when its key is set.
pub open spec fn key_error_of(provider_label: Seq<char>) -> Seq<char> {
    provider_label + " API key is not configured"@
}

/// The configured API key, or the error a request without one fails with.
pub fn require_api_key(provider_label: &str, api_key: &Option<String>) -> (r: TdgResult<String>)
    ensures
        match *api_key {
            Some(k) => r matches Ok(s) && s@ == k@,
            None => r matches Err(TdgError::Custom(m)) && m@ == key_error_of(provider_label@),
        },
{
    match api_key {
        Some(k) => Ok(owned(k.as_str())),
        None => {
            let mut m = owned(provider_label);
            push_str(&mut m, " API key is not configured");
            Err(TdgError::Custom(m))
        },
    }
}

/// The error a provider's non-success HTTP status is reported with.
pub open spec fn api_error_of(provider_label: Seq<char>, status: u16, body: Seq<char>) -> Seq<char> {
    provider_label + " API error ("@ + dec_str(status as nat) + "): "@ + body
}

/// The error for a provider's non-success HTTP status and its body.
pub fn api_error(provider_label: &str, status: u16, body: &str) -> (e: TdgError)
    ensures
        e matches TdgError::Custom(m) && m@ == api_error_of(provider_label@, status, body@),
{
    let mut m = owned(provider_label);
    push_str(&mut m, " API error (");
    push_decimal(&mut m, status as u64);
    push_str(&mut m, "): ");
    push_str(&mut m, body);
    TdgError::Custom(m)
}

// ─── Responses ───────────────────────────────────────────────────────────────

/// The usage counts of an OpenAI reply, each where the reply carries it as
/// an unsigned integer.
#[derive(Debug, Clone, Copy)]
pub struct OpenAiUsageCounts {
    pub prompt_tokens: Option<u64>,
    pub completion_tokens: Option<u64>,
    pub total_tokens: Option<u64>,
}

/// What the library reads of an OpenAI chat completion: the choices (when
/// the reply has a `choices` array), each by its `message.content` where
/// that is a string; the model name; the usage object.
#[derive(Debug, Clone)]
pub struct OpenAiReply {
    pub choices: Option<Vec<Option<String>>>,
    pub model: Option<String>,
    pub usage: Option<OpenAiUsageCounts>,
}

/// What the library reads of an Anthropic message: the content blocks (when
/// the reply has a `content` array), each by its `text` where that is a
/// string; the model name; the input and output token counts.
#[derive(Debug, Clone)]
pub struct AnthropicReply {
    pub content: Option<Vec<Option<String>>>,
    pub model: Option<String>,
    pub input_tokens: Option<u64>,
    pub output_tokens: Option<u64>,
}

/// What the library reads of an Ollama chat reply: `message.content` where
/// it is a string, the model name, and the two evaluation counts.
#[derive(Debug, Clone)]
pub struct OllamaReply {
    pub content: Option<String>,
    pub model: Option<String>,
    pub prompt_eval_count: Option<u64>,
    pub eval_count: Option<u64>,
}

/// A token count as the reply gives it, cut to 32 bits, or 0 when absent.
pub open spec fn count_of(c: Option<u64>) -> u32 {
    match c {
        Some(n) => n as u32,
        None => 0,
    }
}

/// The model a reply names, or "unknown".
pub open spec fn model_name_of(m: Option<String>) -> Seq<char> {
    match m {
        Some(s) => s@,
        None => "unknown"@,
    }
}

fn count(c: Option<u64>) -> (n: u32)
    ensures
        n == count_of(c),
{
    match c {
        Some(v) => v as u32,
        None => 0,
    }
}

fn model_name(m: &Option<String>) -> (s: String)
    ensures
        s@ == model_name_of(*m),
{
    match m {
        Some(n) => owned(n.as_str()),
        None => owned("unknown"),
    }
}

fn custom_error(msg: &str) -> (e: TdgError)
    ensures
        e matches TdgError::Custom(m) && m@ == msg@,
{
    TdgError::Custom(owned(msg))
}

/// The two counts of a reply sum without overflow once cut to 32 bits.
pub open spec fn counts_fit(a: Option<u64>, b: Option<u64>) -> bool {
    count_of(a) + count_of(b) <= u32::MAX
}

impl OpenAiReply {
    /// The completion an OpenAI reply carries: the content of its first
    /// choice, the model (or "unknown"), and the usage counts (0 where
    /// missing). Fails when the reply has no `choices` array, when the array
    /// is empty, or when the first choice has no string content.
    pub fn into_response(self) -> (r: TdgResult<LlmCompletionResponse>)
        ensures
            match self.choices {
                None => r matches Err(TdgError::Custom(m)) && m@ == "OpenAI response missing 'choices' array"@,
                Some(cs) => if cs@.len() == 0 {
                    r matches Err(TdgError::Custom(m)) && m@ == "OpenAI response returned zero choices"@
                } else {
                    match cs@[0] {
                        None => r matches Err(TdgError::Custom(m))
                            && m@ == "OpenAI response missing 'choices[0].message.content'"@,
                        Some(c) => r matches Ok(resp) && resp.content@ == c@
                            && resp.model@ == model_name_of(self.model)
                            && resp.usage == (match self.usage {
                                Some(u) => LlmUsage {
                                    prompt_tokens: count_of(u.prompt_tokens),
                                    completion_tokens: count_of(u.completion_tokens),
                                    total_tokens: count_of(u.total_tokens),
                                },
                                None => LlmUsage { prompt_tokens: 0, completion_tokens: 0, total_tokens: 0 },
                            }),
                    }
                },
            },
    {
        let choices = match &self.choices {
            Some(cs) => cs,
            None => return Err(custom_error("OpenAI response missing 'choices' array")),
        };
        if choices.len() == 0 {
            return Err(custom_error("OpenAI response returned zero choices"));
        }
        let content = match &choices[0] {
            Some(c) => owned(c.as_str()),
            None => return Err(custom_error("OpenAI response missing 'choices[0].message.content'")),
        };
        let usage = match self.usage {
            Some(u) => LlmUsage {
                prompt_tokens: count(u.prompt_tokens),
                completion_tokens: count(u.completion_tokens),
                total_tokens: count(u.total_tokens),
            },
            None => LlmUsage { prompt_tokens: 0, completion_tokens: 0, total_tokens: 0 },
        };
        Ok(LlmCompletionResponse { content, model: model_name(&self.model), usage })
    }
}

impl AnthropicReply {
    /// The completion an Anthropic reply carries: the text of its first
    /// content block, the model (or "unknown"), and the input and output
    /// counts (0 where missing) with their sum. Fails when there is no first
    /// block with string text.
    pub fn into_response(self) -> (r: TdgResult<LlmCompletionResponse>)
        requires
            counts_fit(self.input_tokens, self.output_tokens),
        ensures
            match self.content {
                Some(bs) if bs@.len() > 0 && bs@[0] is Some => r matches Ok(resp)
                    && resp.content@ == bs@[0]->0@
                    && resp.model@ == model_name_of(self.model)
                    && resp.usage == (LlmUsage {
                        prompt_tokens: count_of(self.input_tokens),
                        completion_tokens: count_of(self.output_tokens),
                        total_tokens: (count_of(self.input_tokens) + count_of(self.output_tokens)) as u32,
                    }),
                _ => r matches Err(TdgError::Custom(m)) && m@ == "Anthropic response missing content[0].text"@,
            },
    {
        let text = match &self.content {
            Some(bs) => {
                if bs.len() > 0 {
                    match &bs[0] {
                        Some(t) => Some(owned(t.as_str())),
                        None => None,
                    }
                } else {
                    None
                }
            },
            None => None,
        };
        let content = match text {
            Some(t) => t,
            None => return Err(custom_error("Anthropic response missing content[0].text")),
        };
        let input = count(self.input_tokens);
        let output = count(self.output_tokens);
        Ok(LlmCompletionResponse {
            content,
            model: model_name(&self.model),
            usage: LlmUsage { prompt_tokens: input, completion_tokens: output, total_tokens: input + output },
        })
    }
}

impl OllamaReply {
    /// The completion an Ollama reply carries: its message content, the
    /// model (or "unknown"), and the prompt and evaluation counts (0 where
    /// missing) with their sum. Fails when there is no string content.
    pub fn into_response(self) -> (r: TdgResult<LlmCompletionResponse>)
        requires
            counts_fit(self.prompt_eval_count, self.eval_count),
        ensures
            match self.content {
                Some(c) => r matches Ok(resp)
                    && resp.content@ == c@
                    && resp.model@ == model_name_of(self.model)
                    && resp.usage == (LlmUsage {
                        prompt_tokens: count_of(self.prompt_eval_count),
                        completion_tokens: count_of(self.eval_count),
                        total_tokens: (count_of(self.prompt_eval_count) + count_of(self.eval_count)) as u32,
                    }),
                None => r matches Err(TdgError::Custom(m)) && m@ == "Ollama response missing 'message.content'"@,
            },
    {
        let content = match &self.content {
            Some(c) => owned(c.as_str()),
            None => return Err(custom_error("Ollama response missing 'message.content'")),
        };
        let prompt = count(self.prompt_eval_count);
        let eval = count(self.eval_count);
        Ok(LlmCompletionResponse {
            content,
            model: model_name(&self.model),
            usage: LlmUsage { prompt_tokens: prompt, completion_tokens: eval, total_tokens: prompt + eval },
        })
    }
}

/// The next step of a fallback run across providers.
#[derive(Debug, Clone, PartialEq, Eq)]
pub enum FallbackStep {
    /// Ask the provider at this position.
    Try(usize),
    /// The provider at this position answered; return its response.
    Succeed(usize),
    /// Every provider failed (or none is configured): fail with this message.
    Fail(String),
}

/// A fallback run: providers are tried in order and the first success is
/// returned; each failure is remembered as `name: error`.
pub struct FallbackRun {
    provider_count: usize,
    next: usize,
    errors: Vec<String>,
    finished: bool,
}

/// A fallback run as a mathematical value.
pub struct FallbackView {
    pub provider_count: nat,
    pub next: nat,
    pub errors: Seq<Seq<char>>,
    pub finished: bool,
}

impl View for FallbackRun {
    type V = FallbackView;

    closed spec fn view(&self) -> FallbackView {
        FallbackView {
            provider_count: self.provider_count as nat,
            next: self.next as nat,
            errors: self.errors@.map_values(|e: String| e@),
            finished: self.finished,
        }
    }
}

/// The message of a run in which all providers failed.
pub open spec fn all_failed_message(count: nat, errors: Seq<Seq<char>>) -> Seq<char> {
    "All "@ + dec_str(count) + " fallback providers failed: "@ + join_seqs(errors, " | "@)
}

/// A run waiting for the outcome of provider `next`, having recorded the
/// failures of all earlier providers.
pub open spec fn awaiting(v: FallbackView) -> bool {
    &&& !v.finished
    &&& v.next < v.provider_count
    &&& v.errors.len() == v.next
}

impl FallbackRun {
    /// Start a run over `provider_count` providers: try the first, or fail at
    /// once when there is none.
    pub fn start(provider_count: usize) -> (r: (FallbackRun, FallbackStep))
        ensures
            provider_count == 0 ==> r.0@.finished && (r.1 matches FallbackStep::Fail(m)
                && m@ == "Fallback provider has no providers configured"@),
            provider_count > 0 ==> r.1 == FallbackStep::Try(0) && awaiting(r.0@)
                && r.0@.provider_count == provider_count && r.0@.next == 0,
    {
        if provider_count == 0 {
            let run = FallbackRun { provider_count, next: 0, errors: Vec::new(), finished: true };
            return (run, FallbackStep::Fail(owned("Fallback provider has no providers configured")));
        }
        let run = FallbackRun { provider_count, next: 0, errors: Vec::new(), finished: false };
        assert(run@.errors =~= Seq::<Seq<char>>::empty());
        (run, FallbackStep::Try(0))
    }

    /// The provider being tried answered: the run succeeds with it.
    pub fn on_success(&mut self) -> (s: FallbackStep)
        requires
            awaiting(old(self)@),
        ensures
            s == FallbackStep::Succeed(old(self)@.next as usize),
            final(self)@ == (FallbackView { finished: true, ..old(self)@ }),
    {
        self.finished = true;
        FallbackStep::Succeed(self.next)
    }

    /// The provider being tried, named `name`, failed with `error`: record
    /// `name: error` and try the next provider, or fail with every recorded
    /// error once none is left.
    pub fn on_failure(&mut self, name: &str, error: &str) -> (s: FallbackStep)
        requires
            awaiting(old(self)@),
        ensures
            final(self)@.errors == old(self)@.errors.push(name@ + ": "@ + error@),
            final(self)@.next == old(self)@.next + 1,
            final(self)@.provider_count == old(self)@.provider_count,
            final(self)@.next < final(self)@.provider_count ==> s == FallbackStep::Try(final(self)@.next as usize)
                && awaiting(final(self)@),
            final(self)@.next == final(self)@.provider_count ==> final(self)@.finished
                && (s matches FallbackStep::Fail(m)
                && m@ == all_failed_message(final(self)@.provider_count, final(self)@.errors)),
    {
        let mut e = owned(name);
        push_str(&mut e, ": ");
        push_str(&mut e, error);
        let ghost before = self.errors@;
        self.errors.push(e);
        assert(self.errors@.map_values(|x: String| x@) =~= before.map_values(|x: String| x@).push(name@ + ": "@ + error@));
        self.next = self.next + 1;
        if self.next < self.provider_count {
            FallbackStep::Try(self.next)
        } else {
            self.finished = true;
            let mut m = owned("All ");
            push_decimal(&mut m, self.provider_count as u64);
            push_str(&mut m, " fallback providers failed: ");
            let joined = join(&self.errors, " | ");
            push_str(&mut m, joined.as_str());
            FallbackStep::Fail(m)
        }
    }
}

/// A run over `n >= 1` providers that all fail tries each of them once, in
/// order, and ends with a message listing every failure.
pub proof fn lemma_all_failures_tried_in_order(v: FallbackView, name: Seq<char>, error: Seq<char>)
    requires
        awaiting(v),
    ensures
        ({
            let w = FallbackView { errors: v.errors.push(name + ": "@ + error), next: v.next + 1, ..v };
            &&& w.errors.len() == w.next
            &&& w.next <= w.provider_count
            &&& w.errors.last() == name + ": "@ + error
            &&& (w.next < w.provider_count ==> awaiting(w))
        }),
{
}

} // verus!
