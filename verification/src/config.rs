//! The engine's configuration shape: webhooks and their GET-response
//! modes, module loading limits, and validation of the parsed whole.

use vstd::prelude::*;

use crate::apis::Apis;
use crate::benchmark::Benchmarking;
use crate::data::DataConfig;
use crate::messages::LogbacksAllowed;
use crate::storage::StorageConfig;
use crate::strutil::str_eq;

verus! {

/// How responses to GET requests are cached.
#[derive(Debug, Clone, PartialEq, Eq, Structural)]
pub enum CachingMode {
    /// Do not cache: every GET request runs the response generator.
    NoCache,
    /// Run, then cache the result for the given number of seconds; the
    /// entry is invalid once that long has passed.
    Timed { validity: u64 },
    /// Always serve the stored response; it is refreshed by other means.
    /// When nothing is stored and `call_on_none` is set, the first call
    /// runs the generator once inline.
    UsePersistentResponse { call_on_none: bool },
}

impl Default for CachingMode {
    /// Without a stated mode, nothing is cached.
    fn default() -> (r: Self)
        ensures
            r == CachingMode::NoCache,
    {
        CachingMode::NoCache
    }
}

/// How a webhook responds to a GET request.
#[derive(Debug, Clone, PartialEq, Eq)]
pub enum ResponseMode {
    /// Respond the way Facebook expects; holds the shared secret token.
    Facebook(String),
    /// Respond by running the named module to generate the response.
    Rule(String),
    /// A fixed response body.
    Static(String),
}

/// How a webhook answers GET requests, and how those answers are cached.
#[derive(Debug, Clone)]
pub struct GetMode {
    /// How the data sent in GET responses is cached; only meaningful for
    /// `ResponseMode::Rule`.
    pub caching_mode: CachingMode,
    /// What answers the GET request.
    pub response_mode: ResponseMode,
}

/// Configuration for one webhook within a webhook server: where its POST
/// bodies go and how its GET requests are answered.
#[derive(Debug, Clone)]
pub struct WebhookConfig {
    /// The logging channel that POST bodies are sent to.
    pub log_type: String,
    /// Headers forwarded to the logging channel as accessory data.
    pub headers: Vec<String>,
    /// How GET requests are answered, if at all.
    pub get_mode: Option<GetMode>,
    /// An optional label passed to modules as the source in place of the
    /// webhook address.
    pub label: String,
    /// Whether a label was provided.
    pub has_label: bool,
    /// The logback budget given to each message this webhook admits.
    pub logbacks_allowed: LogbacksAllowed,
}

impl WebhookConfig {
    /// The source name handed to modules: the label when one was given,
    /// the webhook address otherwise.
    pub fn effective_source<'a>(&'a self, address: &'a String) -> (r: &'a String)
        ensures
            self.has_label ==> r@ == self.label@,
            !self.has_label ==> r@ == address@,
    {
        if self.has_label {
            &self.label
        } else {
            address
        }
    }

    /// Admits one POST body as a message on this webhook's channel: the
    /// logback budget comes from `logbacks_allowed`, and the source is
    /// the label when one was given, the webhook address otherwise.
    pub fn admit_message(
        &self,
        address: &String,
        body: Vec<u8>,
        accessory_data: Vec<(Vec<u8>, Vec<u8>)>,
    ) -> (r: crate::messages::Message)
        ensures
            r.type_@ == self.log_type@,
            r.data == body,
            r.accessory_data == accessory_data,
            (match r.source {
                crate::messages::LogSource::Webhook(s) => {
                    if self.has_label {
                        s@ == self.label@
                    } else {
                        s@ == address@
                    }
                },
                _ => false,
            }),
            r.logbacks_allowed == self.logbacks_allowed,
    {
        let source = self.effective_source(address).clone();
        crate::messages::Message {
            type_: self.log_type.clone(),
            data: body,
            accessory_data,
            source: crate::messages::LogSource::Webhook(source),
            logbacks_allowed: self.logbacks_allowed,
        }
    }
}

/// One webhook server: its listen address and its webhooks by path.
#[derive(Debug, Clone)]
pub struct WebhookServerConfiguration {
    /// The address and port to listen on for webhooks.
    pub listen_address: String,
    /// The webhooks served, keyed by path.
    pub webhooks: Vec<(String, WebhookConfig)>,
}

/// Per-module loading configuration: identity, subscriptions and limits.
#[derive(Debug, Clone)]
pub struct ModuleConfig {
    /// The module's unique name, which is also its storage namespace.
    pub name: String,
    /// The logging channels the module handles events from.
    pub channels: Vec<String>,
    /// Computation (fuel) units one invocation may consume; never zero.
    pub fuel_limit: u64,
    /// The most memory pages one instance may hold.
    pub memory_limit_pages: u32,
    /// Whether the module may be invoked in test mode.
    pub test_mode_allowed: bool,
    /// Whether the module has a declared response role, which enables the
    /// cache host calls.
    pub persistent_response: bool,
    /// A per-module override of the webhook logback budget.
    pub logbacks_allowed_override: Option<LogbacksAllowed>,
}

impl ModuleConfig {
    /// The logback budget this module handles a message under: the
    /// module's own override when one is set, the message's budget
    /// otherwise.
    pub fn effective_logbacks(&self, message_budget: LogbacksAllowed) -> (r: LogbacksAllowed)
        ensures
            (match self.logbacks_allowed_override {
                Some(b) => r == b,
                None => r == message_budget,
            }),
    {
        match self.logbacks_allowed_override {
            Some(b) => b,
            None => message_budget,
        }
    }
}

/// The module table loaded at startup.
#[derive(Debug, Clone)]
pub struct LoaderConfiguration {
    /// The modules to load, with their limits.
    pub modules: Vec<ModuleConfig>,
}

/// The external logging and telemetry sinks.
#[derive(Debug, Clone)]
pub struct LoggingConfiguration {
    /// Where benchmarking metrics go, when enabled.
    pub benchmarking: Option<Benchmarking>,
}

/// The full configuration of the engine.
pub struct Configuration {
    /// The API backends reachable from modules.
    pub apis: Apis,
    /// Data generators that pull events instead of waiting for webhooks.
    pub data: DataConfig,
    /// How many threads execute modules when logs come in; 1 to 255.
    pub execution_threads: u8,
    /// The most logs queued for processing at once.
    pub log_queue_size: usize,
    /// Persistent storage for module data, when configured.
    pub storage: Option<StorageConfig>,
    /// External logging configuration.
    pub logging: LoggingConfiguration,
    /// Webhook servers by name.
    pub webhooks: Vec<(String, WebhookServerConfiguration)>,
    /// The module table.
    pub loading: LoaderConfiguration,
}

/// Provides the default log queue size in the event that one isn't
/// provided.
pub fn default_log_queue_size() -> (r: usize)
    ensures
        r == 2048,
{
    2048
}

/// What can go wrong while reading and checking the configuration.
#[derive(Debug, Clone, Copy, PartialEq, Eq, Structural)]
pub enum ConfigurationError {
    FileError,
    ParsingError,
    ComputationLimitInvalid,
    ExecutionThreadsInvalid,
}

impl ConfigurationError {
    /// A one-line account of the failure.
    pub fn description(&self) -> (r: String)
        ensures
            (match self {
                ConfigurationError::FileError => r@
                    == "There was an error finding or reading the configuration file"@,
                ConfigurationError::ParsingError => r@
                    == "The format of the configuration file was incorrect"@,
                ConfigurationError::ComputationLimitInvalid => r@
                    == "The computation limit must be non zero"@,
                ConfigurationError::ExecutionThreadsInvalid => r@
                    == "The number of execution threads must be between 1 and 255"@,
            }),
    {
        match self {
            ConfigurationError::FileError => "There was an error finding or reading the configuration file".to_owned(),
            ConfigurationError::ParsingError => "The format of the configuration file was incorrect".to_owned(),
            ConfigurationError::ComputationLimitInvalid => "The computation limit must be non zero".to_owned(),
            ConfigurationError::ExecutionThreadsInvalid => "The number of execution threads must be between 1 and 255".to_owned(),
        }
    }
}

/// The largest index at which `c` occurs in `s`, or `-1` when it does not.
pub open spec fn last_index_of(s: Seq<char>, c: char) -> int
    decreases s.len(),
{
    if s.len() == 0 {
        -1
    } else if s[s.len() - 1] == c {
        s.len() - 1
    } else {
        last_index_of(s.drop_last(), c)
    }
}

/// `last_index_of` is the largest occurrence, and `-1` exactly when the
/// character never occurs.
pub proof fn lemma_last_index_of(s: Seq<char>, c: char)
    ensures
        last_index_of(s, c) >= -1,
        last_index_of(s, c) == -1 <==> (forall|j: int| 0 <= j < s.len() ==> s[j] != c),
        last_index_of(s, c) >= 0 ==> {
            &&& last_index_of(s, c) < s.len()
            &&& s[last_index_of(s, c)] == c
            &&& forall|j: int| last_index_of(s, c) < j < s.len() ==> s[j] != c
        },
    decreases s.len(),
{
    if s.len() > 0 && s[s.len() - 1] != c {
        lemma_last_index_of(s.drop_last(), c);
        assert forall|j: int| 0 <= j < s.len() && s[j] == c implies last_index_of(s, c) >= 0 by {
            assert(s.drop_last()[j] == c);
        }
        if last_index_of(s, c) >= 0 {
            assert(s[last_index_of(s, c)] == s.drop_last()[last_index_of(s.drop_last(), c)]);
            assert forall|j: int| last_index_of(s, c) < j < s.len() implies s[j] != c by {
                if j < s.len() - 1 {
                    assert(s.drop_last()[j] != c);
                }
            }
        }
    }
}

/// The context piece of a GET response mode string: everything after the
/// last colon.
pub open spec fn response_mode_data(s: Seq<char>) -> Seq<char>
    recommends
        last_index_of(s, ':') >= 0,
{
    s.subrange(last_index_of(s, ':') + 1, s.len() as int)
}

/// The mode word of a GET response mode string: the piece between the
/// second-to-last colon (or the start) and the last colon.
pub open spec fn response_mode_word(s: Seq<char>) -> Seq<char>
    recommends
        last_index_of(s, ':') >= 0,
{
    let last = last_index_of(s, ':');
    let prev = last_index_of(s.subrange(0, last), ':');
    s.subrange(prev + 1, last)
}

/// Whether the mode word names a known response mode.
pub open spec fn known_response_mode(w: Seq<char>) -> bool {
    ||| w == "facebook"@
    ||| w == "meta"@
    ||| w == "Rule"@
    ||| w == "rule"@
    ||| w == "Static"@
    ||| w == "static"@
}

/// Finds the largest `i < end` with `s[i] == ':'`.
fn rfind_colon(s: &str, end: usize) -> (r: Option<usize>)
    requires
        end <= s@.len(),
    ensures
        (match r {
            Some(i) => i < end && s@[i as int] == ':' && (forall|j: int|
                i < j < end ==> s@[j] != ':'),
            None => forall|j: int| 0 <= j < end ==> s@[j] != ':',
        }),
{
    let mut i: usize = end;
    while i > 0
        invariant
            i <= end <= s@.len(),
            forall|j: int| i <= j < end ==> s@[j] != ':',
        decreases i,
    {
        i -= 1;
        if s.get_char(i) == ':' {
            return Some(i);
        }
    }
    None
}

/// Parses a webhook's `response_mode` string: `"facebook:<secret>"` (or
/// `meta`), `"rule:<module>"` (or `Rule`), `"static:<body>"` (or
/// `Static`).  The context is everything after the last colon; the mode
/// word is the piece just before it.  A string with no colon, or with an
/// unknown mode word, is a parsing error.
pub fn parse_response_mode(s: &str) -> (r: Result<ResponseMode, ConfigurationError>)
    ensures
        r.is_ok() <==> last_index_of(s@, ':') >= 0 && known_response_mode(response_mode_word(s@)),
        (match r {
            Ok(m) => {
                let w = response_mode_word(s@);
                match m {
                    ResponseMode::Facebook(d) => (w == "facebook"@ || w == "meta"@) && d@
                        == response_mode_data(s@),
                    ResponseMode::Rule(d) => (w == "Rule"@ || w == "rule"@) && d@
                        == response_mode_data(s@),
                    ResponseMode::Static(d) => (w == "Static"@ || w == "static"@) && d@
                        == response_mode_data(s@),
                }
            },
            Err(e) => e == ConfigurationError::ParsingError,
        }),
{
    let n = s.unicode_len();
    proof {
        lemma_last_index_of(s@, ':');
    }
    let last = match rfind_colon(s, n) {
        None => {
            return Err(ConfigurationError::ParsingError);
        },
        Some(i) => i,
    };
    proof {
        let lc = last_index_of(s@, ':');
        assert(lc != -1);
        if lc > last as int {
            assert(s@[lc] != ':');
        }
        if lc < last as int {
            assert(s@[last as int] != ':');
        }
        assert(lc == last as int);
    }
    let data = s.substring_char(last + 1, n).to_owned();
    proof {
        lemma_last_index_of(s@.subrange(0, last as int), ':');
    }
    let word_start: usize = match rfind_colon(s, last) {
        None => 0,
        Some(p) => p + 1,
    };
    proof {
        let sub = s@.subrange(0, last as int);
        let pc = last_index_of(sub, ':');
        if word_start == 0 {
            assert forall|j: int| 0 <= j < sub.len() implies sub[j] != ':' by {
                assert(s@[j] != ':');
            }
        } else {
            assert(sub[word_start - 1] == ':');
            assert(pc != -1);
            if pc > word_start - 1 {
                assert(sub[pc] != ':');
            }
            if pc < word_start - 1 {
                assert(sub[word_start - 1] != ':');
            }
        }
        assert(pc + 1 == word_start as int);
    }
    let word = s.substring_char(word_start, last);
    proof {
        assert(word@ =~= response_mode_word(s@));
        assert(data@ =~= response_mode_data(s@));
    }
    if str_eq(word, "facebook") || str_eq(word, "meta") {
        Ok(ResponseMode::Facebook(data))
    } else if str_eq(word, "Rule") || str_eq(word, "rule") {
        Ok(ResponseMode::Rule(data))
    } else if str_eq(word, "Static") || str_eq(word, "static") {
        Ok(ResponseMode::Static(data))
    } else {
        Err(ConfigurationError::ParsingError)
    }
}

impl Configuration {
    /// The startup checks on a parsed configuration: the execution thread
    /// count must be non-zero, and every module's computation limit must
    /// be non-zero.
    pub fn validate(&self) -> (r: Result<(), ConfigurationError>)
        ensures
            r.is_ok() <==> self.execution_threads != 0 && (forall|i: int|
                0 <= i < self.loading.modules@.len() ==> (
                #[trigger] self.loading.modules@[i]).fuel_limit != 0),
            self.execution_threads == 0 ==> r == Err::<(), _>(
                ConfigurationError::ExecutionThreadsInvalid,
            ),
            r.is_err() && self.execution_threads != 0 ==> r == Err::<(), _>(
                ConfigurationError::ComputationLimitInvalid,
            ),
    {
        if self.execution_threads == 0 {
            return Err(ConfigurationError::ExecutionThreadsInvalid);
        }
        let mut i: usize = 0;
        while i < self.loading.modules.len()
            invariant
                self.execution_threads != 0,
                i <= self.loading.modules@.len(),
                forall|j: int| 0 <= j < i ==> (#[trigger] self.loading.modules@[j]).fuel_limit
                    != 0,
            decreases self.loading.modules@.len() - i,
        {
            if self.loading.modules[i].fuel_limit == 0 {
                return Err(ConfigurationError::ComputationLimitInvalid);
            }
            i += 1;
        }
        Ok(())
    }
}

} // verus!
