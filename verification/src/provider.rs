//! AI provider errors, the fallback decision and the model registry.
use vstd::prelude::*;
use crate::automation::{env_lookup, lookup};
use crate::text::{
    concat, decimal, push_decimal, push_str, starts_with, text_lines, lines_of, char_views, has_prefix,
    string_from_range, to_chars,
};

verus! {

/// Errors reported by an AI provider.
#[derive(Debug, Clone, PartialEq, Eq)]
pub enum ProviderError {
    Http(String),
    Api { status: u16, message: String },
    Parse(String),
    Unavailable(String),
}

/// Whether retrying with a different provider makes sense for an error:
/// transport errors, server errors (5xx) and unavailability, but not client
/// errors or malformed responses.
pub open spec fn is_retryable_spec(e: ProviderError) -> bool {
    match e {
        ProviderError::Http(_) => true,
        ProviderError::Api { status, .. } => status >= 500,
        ProviderError::Unavailable(_) => true,
        ProviderError::Parse(_) => false,
    }
}

/// The error's display text.
pub open spec fn provider_error_text(e: ProviderError) -> Seq<char> {
    match e {
        ProviderError::Http(m) => "HTTP error: "@ + m@,
        ProviderError::Api { status, message } => "API error "@ + decimal(status as nat) + ": "@
            + message@,
        ProviderError::Parse(m) => "Parse error: "@ + m@,
        ProviderError::Unavailable(m) => "Provider not available: "@ + m@,
    }
}

impl ProviderError {
    /// The error's display text.
    pub fn message(&self) -> (r: String)
        ensures
            r@ == provider_error_text(*self),
    {
        let mut r = String::new();
        match self {
            ProviderError::Http(m) => {
                push_str(&mut r, "HTTP error: ");
                push_str(&mut r, m.as_str());
            },
            ProviderError::Api { status, message } => {
                push_str(&mut r, "API error ");
                push_decimal(&mut r, *status as u64);
                push_str(&mut r, ": ");
                push_str(&mut r, message.as_str());
            },
            ProviderError::Parse(m) => {
                push_str(&mut r, "Parse error: ");
                push_str(&mut r, m.as_str());
            },
            ProviderError::Unavailable(m) => {
                push_str(&mut r, "Provider not available: ");
                push_str(&mut r, m.as_str());
            },
        }
        assert(r@ =~= provider_error_text(*self));
        r
    }
}

/// Returns true for errors where retrying with a different provider makes sense.
pub fn is_retryable(e: &ProviderError) -> (b: bool)
    ensures
        b == is_retryable_spec(*e),
{
    match e {
        ProviderError::Http(_) => true,
        ProviderError::Api { status, .. } => *status >= 500,
        ProviderError::Unavailable(_) => true,
        ProviderError::Parse(_) => false,
    }
}

/// The fallback decision after the primary provider failed with `e`: the
/// fallback provider is tried exactly when one is configured and the error is
/// retryable; otherwise the primary's error is returned.
pub fn should_use_fallback(e: &ProviderError, has_fallback: bool) -> (b: bool)
    ensures
        b == (has_fallback && is_retryable_spec(*e)),
{
    has_fallback && is_retryable(e)
}

/// An API error is worth retrying elsewhere exactly when the server failed
/// (a 5xx status, any of them), never for a client error (below 500),
/// whatever its message; a higher status than a retryable one is
/// retryable too.
pub proof fn law_server_errors_fall_back(status: u16, message: String)
    ensures
        status >= 500 ==> is_retryable_spec(ProviderError::Api { status, message }),
        status < 500 ==> !is_retryable_spec(ProviderError::Api { status, message }),
        forall|other: String|
            #[trigger] is_retryable_spec(ProviderError::Api { status, message: other }) == is_retryable_spec(
                ProviderError::Api { status, message },
            ),
        forall|s: u16|
            s >= status && is_retryable_spec(ProviderError::Api { status, message }) ==> #[trigger] is_retryable_spec(
                ProviderError::Api { status: s, message },
            ),
{
}

/// Transport failures and an unavailable provider are always worth
/// retrying elsewhere; a response that could not be parsed never is.
pub proof fn law_transport_errors_fall_back(m: String)
    ensures
        is_retryable_spec(ProviderError::Http(m)),
        is_retryable_spec(ProviderError::Unavailable(m)),
        !is_retryable_spec(ProviderError::Parse(m)),
{
}

/// Information about a registered model.
#[derive(Debug, Clone)]
pub struct ModelInfo {
    pub id: String,
    pub name: String,
    pub provider: String,
    pub available: bool,
}

/// A provider that can report its name.
pub trait ProviderName {
    fn name(&self) -> &'static str;
}

/// A list of providers with one active provider.
pub struct ModelRegistry<P> {
    providers: Vec<P>,
    active_index: usize,
}

/// The error text for an invalid provider index.
pub open spec fn invalid_index_text(index: nat) -> Seq<char> {
    "Invalid provider index: "@ + decimal(index)
}

impl<P> ModelRegistry<P> {
    /// The registered providers.
    pub closed spec fn providers(&self) -> Seq<P> {
        self.providers@
    }

    /// The index of the active provider.
    pub closed spec fn active_index(&self) -> nat {
        self.active_index as nat
    }

    /// A registry whose active provider is the first.
    pub fn new(providers: Vec<P>) -> (r: Self)
        ensures
            r.providers() == providers@,
            r.active_index() == 0,
    {
        ModelRegistry { providers, active_index: 0 }
    }

    /// The active provider.
    pub fn active(&self) -> (p: &P)
        requires
            self.active_index() < self.providers().len(),
        ensures
            *p == self.providers()[self.active_index() as int],
    {
        &self.providers[self.active_index]
    }

    /// Make provider `index` the active one; fails when there is no such provider.
    pub fn switch_active(&mut self, index: usize) -> (r: Result<(), String>)
        ensures
            final(self).providers() == old(self).providers(),
            index < old(self).providers().len() ==> r is Ok && final(self).active_index() == index,
            index >= old(self).providers().len() ==> (r matches Err(m) && m@ == invalid_index_text(
                index as nat,
            )) && final(self).active_index() == old(self).active_index(),
    {
        if index < self.providers.len() {
            self.active_index = index;
            Ok(())
        } else {
            let mut m = String::new();
            push_str(&mut m, "Invalid provider index: ");
            push_decimal(&mut m, index as u64);
            assert(m@ =~= invalid_index_text(index as nat));
            Err(m)
        }
    }
}

/// The model information listed for a provider name.
pub fn model_info(name: &str) -> (m: ModelInfo)
    ensures
        m.id@ == name@,
        m.name@ == name@,
        m.provider@ == name@,
        m.available,
{
    ModelInfo { id: name.to_owned(), name: name.to_owned(), provider: name.to_owned(), available: true }
}

impl<P: ProviderName> ModelRegistry<P> {
    /// One available model per provider, in order, each named after its provider.
    pub fn list_models(&self) -> (r: Vec<ModelInfo>)
        ensures
            r@.len() == self.providers().len(),
            forall|i: int|
                0 <= i < r@.len() ==> (#[trigger] r@[i]).id@ == r@[i].name@ && r@[i].name@
                    == r@[i].provider@ && r@[i].available,
    {
        let mut r: Vec<ModelInfo> = Vec::new();
        let mut i: usize = 0;
        while i < self.providers.len()
            invariant
                i <= self.providers.len(),
                r@.len() == i,
                forall|k: int|
                    0 <= k < i ==> (#[trigger] r@[k]).id@ == r@[k].name@ && r@[k].name@
                        == r@[k].provider@ && r@[k].available,
            decreases self.providers.len() - i,
        {
            let name = self.providers[i].name();
            r.push(model_info(name));
            i = i + 1;
        }
        r
    }
}

// ---------------------------------------------------------------------------
// Provider configuration and wire details
// ---------------------------------------------------------------------------

/// A provider the default registry is built with.
#[derive(Debug, Clone)]
pub enum ProviderConfig {
    DeepSeek { api_key: String, model: String },
    Ollama { model: String, base_url: String },
}

/// `v`'s text, or `default` when there is none.
pub open spec fn or_default(v: Option<Seq<char>>, default: Seq<char>) -> Seq<char> {
    match v {
        Some(s) => s,
        None => default,
    }
}

/// The default providers for an environment (name/value pairs): DeepSeek
/// first when `DEEPSEEK_API_KEY` is set (model `DEEPSEEK_MODEL`, by default
/// `deepseek-chat`), then Ollama (`OLLAMA_MODEL`, by default
/// `gemma4:31b-cloud`, at `OLLAMA_BASE_URL`, by default
/// `http://localhost:11434/v1`).
pub open spec fn default_providers_spec(vars: Seq<(String, String)>, r: Seq<ProviderConfig>) -> bool {
    let ollama_ok = |c: ProviderConfig|
        c matches ProviderConfig::Ollama { model, base_url } && model@ == or_default(
            env_lookup(vars, "OLLAMA_MODEL"@),
            "gemma4:31b-cloud"@,
        ) && base_url@ == or_default(env_lookup(vars, "OLLAMA_BASE_URL"@), "http://localhost:11434/v1"@);
    match env_lookup(vars, "DEEPSEEK_API_KEY"@) {
        Some(key) => {
            &&& r.len() == 2
            &&& r[0] matches ProviderConfig::DeepSeek { api_key, model } && api_key@ == key && model@
                == or_default(env_lookup(vars, "DEEPSEEK_MODEL"@), "deepseek-chat"@)
            &&& ollama_ok(r[1])
        },
        None => r.len() == 1 && ollama_ok(r[0]),
    }
}

fn var_or(vars: &Vec<(String, String)>, key: &str, default: &str) -> (r: String)
    ensures
        r@ == or_default(env_lookup(vars@, key@), default@),
{
    match lookup(vars, key) {
        Some(v) => v.clone(),
        None => default.to_owned(),
    }
}

/// The providers of the default registry, in order, for an environment.
pub fn default_providers(vars: &Vec<(String, String)>) -> (r: Vec<ProviderConfig>)
    ensures
        default_providers_spec(vars@, r@),
{
    let mut r: Vec<ProviderConfig> = Vec::new();
    match lookup(vars, "DEEPSEEK_API_KEY") {
        Some(key) => {
            let model = var_or(vars, "DEEPSEEK_MODEL", "deepseek-chat");
            r.push(ProviderConfig::DeepSeek { api_key: key.clone(), model });
        },
        None => {},
    }
    let base_url = var_or(vars, "OLLAMA_BASE_URL", "http://localhost:11434/v1");
    let model = var_or(vars, "OLLAMA_MODEL", "gemma4:31b-cloud");
    r.push(ProviderConfig::Ollama { model, base_url });
    r
}

/// The chat-completions endpoint under a base URL.
pub fn chat_completions_url(base_url: &str) -> (r: String)
    ensures
        r@ == base_url@ + "/chat/completions"@,
{
    concat(base_url, "/chat/completions")
}

/// The `Authorization` header value for an API key.
pub fn bearer(api_key: &str) -> (r: String)
    ensures
        r@ == "Bearer "@ + api_key@,
{
    concat("Bearer ", api_key)
}

/// The JSON payload a received piece of a streamed response carries: the
/// text after `data: ` on its first line that starts with `data: ` and is not
/// `data: [DONE]`.
pub open spec fn chunk_payload_spec(lines: Seq<Seq<char>>) -> Option<Seq<char>>
    decreases lines.len(),
{
    if lines.len() == 0 {
        None
    } else if starts_with(lines[0], "data: "@) && lines[0] != "data: [DONE]"@ {
        Some(lines[0].skip("data: "@.len() as int))
    } else {
        chunk_payload_spec(lines.drop_first())
    }
}

/// The JSON payload of a received piece of a streamed response, if it has one.
pub fn chunk_payload(text: &str) -> (r: Option<String>)
    ensures
        match r {
            Some(p) => chunk_payload_spec(text_lines(text@)) == Some(p@),
            None => chunk_payload_spec(text_lines(text@)) is None,
        },
{
    let lines = lines_of(text);
    let ghost ls = text_lines(text@);
    let done = to_chars("data: [DONE]");
    proof {
        reveal_strlit("data: ");
    }
    let mut i: usize = 0;
    assert(ls.skip(0) =~= ls);
    while i < lines.len()
        invariant
            i <= lines.len(),
            char_views(lines@) == ls,
            ls == text_lines(text@),
            done@ == "data: [DONE]"@,
            "data: "@.len() == 6,
            chunk_payload_spec(ls) == chunk_payload_spec(ls.skip(i as int)),
        decreases lines.len() - i,
    {
        assert(ls.skip(i as int).drop_first() =~= ls.skip(i + 1));
        assert(ls.skip(i as int)[0] == ls[i as int]);
        assert(lines@[i as int]@ == ls[i as int]);
        let line = &lines[i];
        if has_prefix(line, "data: ") && !same_chars(line, &done) {
            let p = string_from_range(line, 6, line.len());
            assert(p@ =~= ls[i as int].skip(6));
            return Some(p);
        }
        i = i + 1;
    }
    None
}

fn same_chars(a: &Vec<char>, b: &Vec<char>) -> (r: bool)
    ensures
        r == (a@ == b@),
{
    if a.len() != b.len() {
        return false;
    }
    let mut i: usize = 0;
    while i < a.len()
        invariant
            i <= a.len() == b.len(),
            forall|k: int| 0 <= k < i ==> a@[k] == b@[k],
        decreases a.len() - i,
    {
        if a[i] != b[i] {
            return false;
        }
        i = i + 1;
    }
    assert(a@ =~= b@);
    true
}

} // verus!
