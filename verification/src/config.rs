//! Configuration of the agents: defaults, environment variables, validation.

use vstd::prelude::*;
use crate::number::Arithmetic;
use crate::number::Single;

verus! {

/// Main configuration for the research agent.
#[derive(Debug, Clone)]
pub struct Config {
    /// The Ollama model to use (e.g. "llama3.2", "deepseek-v3.2").
    pub model: String,
    /// Ollama server URL.
    pub ollama_host: String,
    /// Temperature for LLM responses (0 = deterministic, 1 = creative).
    pub temperature: Single,
    /// Tavily API key for authentication.
    pub tavily_api_key: String,
    /// Maximum number of search results to analyze.
    pub max_search_results: usize,
    /// Log level for the application.
    pub log_level: String,
}

/// The mathematical counterpart of [`Config`].
pub struct ConfigView {
    pub model: Seq<char>,
    pub ollama_host: Seq<char>,
    pub temperature: Single,
    pub tavily_api_key: Seq<char>,
    pub max_search_results: nat,
    pub log_level: Seq<char>,
}

impl View for Config {
    type V = ConfigView;

    open spec fn view(&self) -> ConfigView {
        ConfigView {
            model: self.model@,
            ollama_host: self.ollama_host@,
            temperature: self.temperature,
            tavily_api_key: self.tavily_api_key@,
            max_search_results: self.max_search_results as nat,
            log_level: self.log_level@,
        }
    }
}

/// 0.7
#[verifier::allow_in_spec]
pub fn default_temperature() -> (r: Single)
    returns
        (Single { bits: 0x3F33_3333 }),
{
    Single { bits: 0x3F33_3333 }
}

/// The configuration where nothing is set.
pub open spec fn default_config() -> ConfigView {
    ConfigView {
        model: "llama3.2"@,
        ollama_host: "http://localhost:11434"@,
        temperature: default_temperature(),
        tavily_api_key: Seq::empty(),
        max_search_results: 5,
        log_level: "info"@,
    }
}

impl Default for Config {
    fn default() -> (r: Config)
        ensures
            r@ == default_config(),
    {
        Config {
            model: "llama3.2".to_owned(),
            ollama_host: "http://localhost:11434".to_owned(),
            temperature: default_temperature(),
            max_search_results: 5,
            tavily_api_key: String::new(),
            log_level: "info".to_owned(),
        }
    }
}

/// What a configuration can be refused for.
#[derive(Debug, Clone, Copy, PartialEq, Eq, Structural)]
pub enum ConfigError {
    EmptyModel,
    TemperatureOutOfRange,
    NoSearchResults,
}

impl ConfigError {
    /// The error in words.
    pub open spec fn spec_message(self) -> Seq<char> {
        match self {
            ConfigError::EmptyModel => "OLLAMA_MODEL cannot be empty"@,
            ConfigError::TemperatureOutOfRange => "TEMPERATURE must be between 0.0 and 2.0"@,
            ConfigError::NoSearchResults => "MAX_SEARCH_RESULTS must be at least 1"@,
        }
    }

    /// The error in words.
    pub fn message(&self) -> (r: String)
        ensures
            r@ == self.spec_message(),
    {
        match self {
            ConfigError::EmptyModel => "OLLAMA_MODEL cannot be empty".to_owned(),
            ConfigError::TemperatureOutOfRange =>
                "TEMPERATURE must be between 0.0 and 2.0".to_owned(),
            ConfigError::NoSearchResults => "MAX_SEARCH_RESULTS must be at least 1".to_owned(),
        }
    }
}

/// The environment variables that the configuration is made of, as far as set.
#[derive(Debug, Clone)]
pub struct EnvVars {
    pub ollama_model: Option<String>,
    pub ollama_host: Option<String>,
    pub max_search_results: Option<String>,
    pub tavily_api_key: Option<String>,
    pub temperature: Option<String>,
    pub rust_log: Option<String>,
}

/// A decimal digit.
pub open spec fn is_digit(c: char) -> bool {
    '0' <= c && c <= '9'
}

/// The number that digits denote.
pub open spec fn digits_value(digits: Seq<char>) -> nat
    decreases digits.len(),
{
    if digits.len() == 0 {
        0
    } else {
        (digits_value(digits.drop_last()) * 10 + (digits.last() as int - 48)) as nat
    }
}

/// The text without a plus sign in front.
pub open spec fn unsigned_part(text: Seq<char>) -> Seq<char> {
    if text.len() > 0 && text[0] == '+' {
        text.skip(1)
    } else {
        text
    }
}

/// The count that a text denotes: digits, with or without a plus sign in
/// front, of a value that a machine word holds.
pub open spec fn parsed_count(text: Seq<char>) -> Option<nat> {
    let digits = unsigned_part(text);
    if digits.len() > 0 && (forall|i: int| 0 <= i < digits.len() ==> is_digit(#[trigger] digits[i]))
        && digits_value(digits) <= usize::MAX {
        Some(digits_value(digits))
    } else {
        None
    }
}

/// More digits denote no smaller number.
proof fn lemma_digits_grow(digits: Seq<char>, n: int)
    requires
        0 <= n <= digits.len(),
        forall|i: int| 0 <= i < digits.len() ==> is_digit(#[trigger] digits[i]),
    ensures
        digits_value(digits.take(n)) <= digits_value(digits),
    decreases digits.len(),
{
    if n < digits.len() {
        assert(digits.drop_last().take(n) =~= digits.take(n));
        assert(is_digit(digits[digits.len() - 1]));
        lemma_digits_grow(digits.drop_last(), n);
    } else {
        assert(digits.take(n) =~= digits);
    }
}

/// The count that a text denotes, if it denotes one.
pub fn parse_count(text: &str) -> (r: Option<usize>)
    ensures
        r matches Some(n) ==> parsed_count(text@) == Some(n as nat),
        r is None ==> parsed_count(text@) is None,
{
    let ghost digits = unsigned_part(text@);
    let len: usize = text.unicode_len();
    let from: usize = if len > 0 && text.get_char(0) == '+' {
        1
    } else {
        0
    };
    if from == len {
        return None;
    }
    let mut value: usize = 0;
    assert(digits.take(0) =~= Seq::<char>::empty());
    for i in from..len
        invariant
            from <= len,
            from < len,
            len == text@.len(),
            digits == unsigned_part(text@),
            digits.len() == len - from,
            forall|k: int| 0 <= k < digits.len() ==> digits[k] == #[trigger] text@[k + from],
            forall|k: int| 0 <= k < i - from ==> is_digit(#[trigger] digits[k]),
            value == digits_value(digits.take(i - from)),
    {
        let c = text.get_char(i);
        assert(digits[i - from] == text@[i - from + from]);
        if !(c >= '0' && c <= '9') {
            assert(!is_digit(digits[i - from]));
            return None;
        }
        let digit: usize = (c as u32 - 48) as usize;
        assert(digits.take(i + 1 - from).drop_last() =~= digits.take(i - from));
        assert(digits_value(digits.take(i + 1 - from)) == value * 10 + digit);
        if value > (usize::MAX - digit) / 10 {
            proof {
                if forall|k: int| 0 <= k < digits.len() ==> is_digit(#[trigger] digits[k]) {
                    lemma_digits_grow(digits, i + 1 - from);
                }
            }
            return None;
        }
        value = value * 10 + digit;
    }
    assert(digits.take(len - from) =~= digits);
    Some(value)
}

/// What a variable says, or else a default.
pub open spec fn set_or(variable: Option<String>, default: Seq<char>) -> Seq<char> {
    match variable {
        Some(text) => text@,
        None => default,
    }
}

/// The configuration that the environment asks for. What is not set, and a
/// number that cannot be read, has its default.
pub open spec fn env_config<A: Arithmetic>(vars: EnvVars) -> ConfigView {
    let default = default_config();
    ConfigView {
        model: set_or(vars.ollama_model, default.model),
        ollama_host: set_or(vars.ollama_host, default.ollama_host),
        temperature: match vars.temperature {
            Some(text) => match crate::number::parse_single::<A>(text@) {
                Some(t) => t,
                None => default.temperature,
            },
            None => default.temperature,
        },
        tavily_api_key: set_or(vars.tavily_api_key, default.tavily_api_key),
        max_search_results: match vars.max_search_results {
            Some(text) => match parsed_count(text@) {
                Some(n) => n,
                None => default.max_search_results,
            },
            None => default.max_search_results,
        },
        log_level: set_or(vars.rust_log, default.log_level),
    }
}

/// The first thing that a configuration is to be refused for.
pub open spec fn config_fault(config: ConfigView) -> Option<ConfigError> {
    if config.model.len() == 0 {
        Some(ConfigError::EmptyModel)
    } else if !config.temperature.from_zero_to_two() {
        Some(ConfigError::TemperatureOutOfRange)
    } else if config.max_search_results == 0 {
        Some(ConfigError::NoSearchResults)
    } else {
        None
    }
}

/// What a variable says, or else a default.
fn text_or(variable: &Option<String>, default: &str) -> (r: String)
    ensures
        r@ == set_or(*variable, default@),
{
    match variable {
        Some(text) => text.clone(),
        None => default.to_owned(),
    }
}

impl Config {
    /// The configuration that the environment asks for.
    pub fn from_env<A: Arithmetic>(vars: &EnvVars) -> (r: Result<Config, ConfigError>)
        ensures
            r is Ok,
            r->Ok_0@ == (ConfigView {
                temperature: r->Ok_0.temperature,
                ..env_config::<A>(*vars)
            }),
            vars.temperature is None || crate::number::repeatable::<A>() ==> r->Ok_0@
                == env_config::<A>(*vars),
    {
        let temperature = match &vars.temperature {
            Some(text) => match A::parse_single(text.as_str()) {
                Some(t) => t,
                None => default_temperature(),
            },
            None => default_temperature(),
        };
        let max_search_results: usize = match &vars.max_search_results {
            Some(text) => match parse_count(text.as_str()) {
                Some(n) => n,
                None => 5,
            },
            None => 5,
        };
        proof {
            reveal_strlit("");
            assert(""@ =~= Seq::<char>::empty());
        }
        Ok(
            Config {
                model: text_or(&vars.ollama_model, "llama3.2"),
                ollama_host: text_or(&vars.ollama_host, "http://localhost:11434"),
                temperature,
                tavily_api_key: text_or(&vars.tavily_api_key, ""),
                max_search_results,
                log_level: text_or(&vars.rust_log, "info"),
            },
        )
    }

    /// Refuses a configuration without a model, with a temperature outside of 0
    /// to 2, or that asks for no search results.
    pub fn validate(&self) -> (r: Result<(), ConfigError>)
        ensures
            r == (match config_fault(self@) {
                Some(e) => Err::<(), ConfigError>(e),
                None => Ok::<(), ConfigError>(()),
            }),
    {
        if self.model.as_str().is_empty() {
            return Err(ConfigError::EmptyModel);
        }
        if !self.temperature.is_from_zero_to_two() {
            return Err(ConfigError::TemperatureOutOfRange);
        }
        if self.max_search_results == 0 {
            return Err(ConfigError::NoSearchResults);
        }
        Ok(())
    }
}

/// With no variable set, the environment asks for the default configuration.
pub proof fn law_empty_environment_gives_the_default<A: Arithmetic>(vars: EnvVars)
    requires
        vars.ollama_model is None,
        vars.ollama_host is None,
        vars.max_search_results is None,
        vars.tavily_api_key is None,
        vars.temperature is None,
        vars.rust_log is None,
    ensures
        env_config::<A>(vars) == default_config(),
{
}

/// The default configuration is valid.
pub proof fn law_default_is_valid()
    ensures
        config_fault(default_config()) is None,
{
    reveal_strlit("llama3.2");
}

} // verus!
