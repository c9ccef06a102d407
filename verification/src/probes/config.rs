//! What the agent is configured to observe.

use crate::text::{concat, optional, split_once, split_once_of, trim, trim_end_char, trim_end_of, trim_of, Class};
use vstd::prelude::*;

verus! {

/// The configuration of the agent.
pub struct AgentConfig {
    pub hardware_capabilities_dir: Option<String>,
    pub signal_policies_dir: Option<String>,
    pub service: Vec<ServiceConfig>,
    pub llm: Vec<LlmEndpointConfig>,
}

impl Default for AgentConfig {
    /// Nothing is configured.
    fn default() -> (r: Self)
        ensures
            r.hardware_capabilities_dir is None,
            r.signal_policies_dir is None,
            r.service@.len() == 0,
            r.llm@.len() == 0,
    {
        AgentConfig {
            hardware_capabilities_dir: None,
            signal_policies_dir: None,
            service: Vec::new(),
            llm: Vec::new(),
        }
    }
}

/// A system service to observe.
pub struct ServiceConfig {
    pub name: String,
}

/// A model server to observe.
pub struct LlmEndpointConfig {
    pub id: String,
    pub backend: Backend,
    pub base_url: String,
    pub served_model_id: Option<String>,
    pub context_capacity: Option<u64>,
    pub auth_header_file: Option<String>,
    pub tls_ca_file: Option<String>,
    pub metrics_path: String,
    pub metric_names: MetricNames,
}

/// The path of the metrics where none is configured.
pub fn default_metrics_path() -> (r: String)
    ensures
        r@ == "/metrics"@,
{
    "/metrics".to_owned()
}

/// The kind of a model server.
#[derive(Debug, Clone, Copy, PartialEq, Eq, Structural)]
pub enum Backend {
    Sglang,
    Vllm,
    LlamaCpp,
    Openai,
    Custom,
}

/// The name of a kind of model server.
pub open spec fn backend_name(b: Backend) -> Seq<char> {
    match b {
        Backend::Sglang => "sglang"@,
        Backend::Vllm => "vllm"@,
        Backend::LlamaCpp => "llama_cpp"@,
        Backend::Openai => "openai"@,
        Backend::Custom => "custom"@,
    }
}

impl Backend {
    /// The name of the kind.
    #[must_use]
    pub fn as_str(self) -> (r: &'static str)
        ensures
            r@ == backend_name(self),
    {
        match self {
            Backend::Sglang => "sglang",
            Backend::Vllm => "vllm",
            Backend::LlamaCpp => "llama_cpp",
            Backend::Openai => "openai",
            Backend::Custom => "custom",
        }
    }
}

/// The names under which a model server exposes its metrics.
pub struct MetricNames {
    pub running: Option<String>,
    pub queued: Option<String>,
    pub input_tokens: Option<String>,
    pub output_tokens: Option<String>,
    pub generation_rate: Option<String>,
    pub uptime: Option<String>,
}

/// The content of [`MetricNames`].
pub struct Names {
    pub running: Option<Seq<char>>,
    pub queued: Option<Seq<char>>,
    pub input_tokens: Option<Seq<char>>,
    pub output_tokens: Option<Seq<char>>,
    pub generation_rate: Option<Seq<char>>,
    pub uptime: Option<Seq<char>>,
}

impl View for MetricNames {
    type V = Names;

    open spec fn view(&self) -> Names {
        Names {
            running: optional(self.running),
            queued: optional(self.queued),
            input_tokens: optional(self.input_tokens),
            output_tokens: optional(self.output_tokens),
            generation_rate: optional(self.generation_rate),
            uptime: optional(self.uptime),
        }
    }
}

/// No names.
pub open spec fn no_names() -> Names {
    Names {
        running: None,
        queued: None,
        input_tokens: None,
        output_tokens: None,
        generation_rate: None,
        uptime: None,
    }
}

impl Default for MetricNames {
    fn default() -> (r: Self)
        ensures
            r@ == no_names(),
    {
        MetricNames {
            running: None,
            queued: None,
            input_tokens: None,
            output_tokens: None,
            generation_rate: None,
            uptime: None,
        }
    }
}

/// The names that a kind of model server uses.
pub open spec fn default_names(b: Backend) -> Names {
    match b {
        Backend::Sglang => Names {
            running: Some("sglang:num_running_reqs"@),
            queued: Some("sglang:num_queue_reqs"@),
            input_tokens: Some("sglang:prompt_tokens_total"@),
            output_tokens: Some("sglang:generation_tokens_total"@),
            generation_rate: Some("sglang:gen_throughput"@),
            uptime: None,
        },
        Backend::Vllm => Names {
            running: Some("vllm:num_requests_running"@),
            queued: Some("vllm:num_requests_waiting"@),
            input_tokens: Some("vllm:prompt_tokens_total"@),
            output_tokens: Some("vllm:generation_tokens_total"@),
            generation_rate: None,
            uptime: None,
        },
        Backend::LlamaCpp => Names {
            running: Some("llamacpp:requests_processing"@),
            queued: Some("llamacpp:requests_deferred"@),
            input_tokens: Some("llamacpp:prompt_tokens_total"@),
            output_tokens: Some("llamacpp:tokens_predicted_total"@),
            generation_rate: Some("llamacpp:predicted_tokens_seconds"@),
            uptime: None,
        },
        Backend::Openai => no_names(),
        Backend::Custom => no_names(),
    }
}

/// The configured name, or the default one.
pub open spec fn or_default(
    configured: Option<Seq<char>>,
    default_name: Option<Seq<char>>,
) -> Option<Seq<char>> {
    match configured {
        Some(name) => Some(name),
        None => default_name,
    }
}

/// The names that apply to an endpoint: the configured ones, and the default
/// ones for the rest.
pub open spec fn names_of(c: LlmEndpointConfig) -> Names {
    let n = c.metric_names@;
    let d = default_names(c.backend);
    Names {
        running: or_default(n.running, d.running),
        queued: or_default(n.queued, d.queued),
        input_tokens: or_default(n.input_tokens, d.input_tokens),
        output_tokens: or_default(n.output_tokens, d.output_tokens),
        generation_rate: or_default(n.generation_rate, d.generation_rate),
        uptime: or_default(n.uptime, d.uptime),
    }
}

fn choose_name(configured: &Option<String>, default_name: Option<String>) -> (r: Option<String>)
    ensures
        optional(r) == or_default(optional(*configured), optional(default_name)),
{
    match configured {
        Some(name) => Some(name.clone()),
        None => default_name,
    }
}

fn some(name: &str) -> (r: Option<String>)
    ensures
        optional(r) == Some(name@),
{
    Some(name.to_owned())
}

fn built_in_names(backend: Backend) -> (r: MetricNames)
    ensures
        r@ == default_names(backend),
{
    match backend {
        Backend::Sglang => MetricNames {
            running: some("sglang:num_running_reqs"),
            queued: some("sglang:num_queue_reqs"),
            input_tokens: some("sglang:prompt_tokens_total"),
            output_tokens: some("sglang:generation_tokens_total"),
            generation_rate: some("sglang:gen_throughput"),
            uptime: None,
        },
        Backend::Vllm => MetricNames {
            running: some("vllm:num_requests_running"),
            queued: some("vllm:num_requests_waiting"),
            input_tokens: some("vllm:prompt_tokens_total"),
            output_tokens: some("vllm:generation_tokens_total"),
            generation_rate: None,
            uptime: None,
        },
        Backend::LlamaCpp => MetricNames {
            running: some("llamacpp:requests_processing"),
            queued: some("llamacpp:requests_deferred"),
            input_tokens: some("llamacpp:prompt_tokens_total"),
            output_tokens: some("llamacpp:tokens_predicted_total"),
            generation_rate: some("llamacpp:predicted_tokens_seconds"),
            uptime: None,
        },
        Backend::Openai => MetricNames::default(),
        Backend::Custom => MetricNames::default(),
    }
}

/// The names that apply to an endpoint.
pub fn resolved_names(config: &LlmEndpointConfig) -> (r: MetricNames)
    ensures
        r@ == names_of(*config),
{
    let d = built_in_names(config.backend);
    let n = &config.metric_names;
    MetricNames {
        running: choose_name(&n.running, d.running),
        queued: choose_name(&n.queued, d.queued),
        input_tokens: choose_name(&n.input_tokens, d.input_tokens),
        output_tokens: choose_name(&n.output_tokens, d.output_tokens),
        generation_rate: choose_name(&n.generation_rate, d.generation_rate),
        uptime: choose_name(&n.uptime, d.uptime),
    }
}

/// Where an endpoint is queried. Servers with the OpenAI interface only list
/// their models.
pub open spec fn url_of(c: LlmEndpointConfig) -> Seq<char> {
    trim_end_of(c.base_url@, Class::Only('/')) + (if c.backend == Backend::Openai {
        "/v1/models"@
    } else {
        c.metrics_path@
    })
}

/// Where an endpoint is queried.
pub fn endpoint_url(config: &LlmEndpointConfig) -> (r: String)
    ensures
        r@ == url_of(*config),
{
    let base = trim_end_char(config.base_url.as_str(), '/');
    if config.backend == Backend::Openai {
        concat(base.as_str(), "/v1/models")
    } else {
        concat(base.as_str(), config.metrics_path.as_str())
    }
}

// --------------------------------------------------------------------------
// Authentication headers
// --------------------------------------------------------------------------

/// A character of an HTTP token.
pub open spec fn is_token_char(c: char) -> bool {
    ||| crate::text::is_alphanumeric(c)
    ||| c == '!'
    ||| c == '#'
    ||| c == '$'
    ||| c == '%'
    ||| c == '&'
    ||| c == '\''
    ||| c == '*'
    ||| c == '+'
    ||| c == '-'
    ||| c == '.'
    ||| c == '^'
    ||| c == '_'
    ||| c == '`'
    ||| c == '|'
    ||| c == '~'
}

/// A name of an HTTP header: a token of at most 65535 characters.
pub open spec fn is_header_name(s: Seq<char>) -> bool {
    &&& 0 < s.len() <= 65535
    &&& forall|i: int| 0 <= i < s.len() ==> is_token_char(#[trigger] s[i])
}

/// A value of an HTTP header: no control characters but the tab.
pub open spec fn is_header_value(s: Seq<char>) -> bool {
    forall|i: int|
        0 <= i < s.len() ==> {
            let c = #[trigger] s[i];
            c == '\t' || c >= ' ' && c != '\x7f'
        }
}

/// `http::HeaderName::from_bytes` as `reqwest` exports it: it accepts exactly
/// the tokens of 1 to 65535 bytes.
#[verifier::external_body]
fn header_name_accepted(name: &str) -> (r: bool)
    ensures
        r == is_header_name(name@),
{
    reqwest::header::HeaderName::from_bytes(name.as_bytes()).is_ok()
}

/// `http::HeaderValue::from_str` as `reqwest` exports it: it accepts exactly
/// the texts without control characters other than the tab.
#[verifier::external_body]
fn header_value_accepted(value: &str) -> (r: bool)
    ensures
        r == is_header_value(value@),
{
    reqwest::header::HeaderValue::from_str(value).is_ok()
}

/// Why the content of an authentication header file is refused.
#[derive(Debug, Clone, Copy, PartialEq, Eq, Structural)]
pub enum AuthHeaderError {
    /// It is not of the form `Name: value`.
    NotAHeader,
    InvalidName,
    InvalidValue,
}

/// The header that the content of an authentication header file gives.
pub open spec fn auth_header_of(raw: Seq<char>) -> Result<
    (Seq<char>, Seq<char>),
    AuthHeaderError,
> {
    match split_once_of(trim_of(raw), Class::Only(':')) {
        None => Err(AuthHeaderError::NotAHeader),
        Some((name, value)) => if !is_header_name(trim_of(name)) {
            Err(AuthHeaderError::InvalidName)
        } else if !is_header_value(trim_of(value)) {
            Err(AuthHeaderError::InvalidValue)
        } else {
            Ok((trim_of(name), trim_of(value)))
        },
    }
}

/// The content of a header result.
pub open spec fn header_view(r: Result<(String, String), AuthHeaderError>) -> Result<
    (Seq<char>, Seq<char>),
    AuthHeaderError,
> {
    match r {
        Ok((name, value)) => Ok((name@, value@)),
        Err(e) => Err(e),
    }
}

/// Reads the header from the content of an authentication header file.
pub fn parse_auth_header(raw: &str) -> (r: Result<(String, String), AuthHeaderError>)
    ensures
        header_view(r) == auth_header_of(raw@),
{
    let text = trim(raw);
    match split_once(text.as_str(), Class::Only(':')) {
        None => Err(AuthHeaderError::NotAHeader),
        Some((name, value)) => {
            let name = trim(name.as_str());
            let value = trim(value.as_str());
            if !header_name_accepted(name.as_str()) {
                Err(AuthHeaderError::InvalidName)
            } else if !header_value_accepted(value.as_str()) {
                Err(AuthHeaderError::InvalidValue)
            } else {
                Ok((name, value))
            }
        },
    }
}

} // verus!
