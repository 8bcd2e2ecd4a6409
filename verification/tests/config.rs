use quant_research_agent::config::parse_count;
use quant_research_agent::config::Config;
use quant_research_agent::config::ConfigError;
use quant_research_agent::config::EnvVars;
use quant_research_agent::number::Arithmetic;
use quant_research_agent::number::Number;
use quant_research_agent::number::Single;

struct Floats;

impl Arithmetic for Floats {
    fn plus(a: Number, b: Number) -> Number {
        number(float(a) + float(b))
    }

    fn minus(a: Number, b: Number) -> Number {
        number(float(a) - float(b))
    }

    fn times(a: Number, b: Number) -> Number {
        number(float(a) * float(b))
    }

    fn divide(a: Number, b: Number) -> Number {
        number(float(a) / float(b))
    }

    fn ln(a: Number) -> Number {
        number(float(a).ln())
    }

    fn sqrt(a: Number) -> Number {
        number(float(a).sqrt())
    }

    fn square(a: Number) -> Number {
        number(float(a).powi(2))
    }

    fn from_count(n: u128) -> Number {
        number(n as f64)
    }

    fn fixed2(a: Number) -> String {
        format!("{:.2}", float(a))
    }

    fn parse_single(text: &str) -> Option<Single> {
        text.parse::<f32>().ok().map(|x| Single { bits: x.to_bits() })
    }
}

fn number(x: f64) -> Number {
    Number { bits: x.to_bits() }
}

fn float(x: Number) -> f64 {
    f64::from_bits(x.bits)
}

fn nothing_set() -> EnvVars {
    EnvVars {
        ollama_model: None,
        ollama_host: None,
        max_search_results: None,
        tavily_api_key: None,
        temperature: None,
        rust_log: None,
    }
}

fn single(x: f32) -> Single {
    Single { bits: x.to_bits() }
}

#[test]
fn test_default_config() {
    let config = Config::default();

    assert_eq!(config.model, "llama3.2");
    assert_eq!(config.ollama_host, "http://localhost:11434");
    assert!((f32::from_bits(config.temperature.bits) - 0.7).abs() < f32::EPSILON);
    assert_eq!(config.max_search_results, 5);
}

#[test]
fn test_config_validation_valid() {
    let config = Config::default();
    assert!(config.validate().is_ok());
}

#[test]
fn test_config_validation_invalid_temperature() {
    let mut config = Config::default();
    config.temperature = single(3.0); // Invalid: above 2.0
    assert!(config.validate().is_err());
}

#[test]
fn test_config_validation_invalid_search_results() {
    let mut config = Config::default();
    config.max_search_results = 0; // Invalid: must be at least 1
    assert!(config.validate().is_err());
}

#[test]
fn default_holds_the_documented_values() {
    let config = Config::default();
    assert_eq!(config.temperature, single(0.7));
    assert_eq!(config.tavily_api_key, "");
    assert_eq!(config.log_level, "info");
}

#[test]
fn empty_environment_gives_the_default() {
    let config = Config::from_env::<Floats>(&nothing_set()).unwrap();
    let default = Config::default();
    assert_eq!(config.model, default.model);
    assert_eq!(config.ollama_host, default.ollama_host);
    assert_eq!(config.temperature, default.temperature);
    assert_eq!(config.tavily_api_key, default.tavily_api_key);
    assert_eq!(config.max_search_results, default.max_search_results);
    assert_eq!(config.log_level, default.log_level);
}

#[test]
fn environment_overrides_the_defaults() {
    let vars = EnvVars {
        ollama_model: Some("deepseek-v3.2".to_string()),
        ollama_host: Some("http://elsewhere:1".to_string()),
        max_search_results: Some("12".to_string()),
        tavily_api_key: Some("key".to_string()),
        temperature: Some("1.25".to_string()),
        rust_log: Some("debug".to_string()),
    };
    let config = Config::from_env::<Floats>(&vars).unwrap();
    assert_eq!(config.model, "deepseek-v3.2");
    assert_eq!(config.ollama_host, "http://elsewhere:1");
    assert_eq!(config.max_search_results, 12);
    assert_eq!(config.tavily_api_key, "key");
    assert_eq!(config.temperature, single(1.25));
    assert_eq!(config.log_level, "debug");
}

#[test]
fn unreadable_numbers_fall_back_to_the_defaults() {
    let mut vars = nothing_set();
    vars.max_search_results = Some("many".to_string());
    vars.temperature = Some("warm".to_string());
    let config = Config::from_env::<Floats>(&vars).unwrap();
    assert_eq!(config.max_search_results, 5);
    assert_eq!(config.temperature, single(0.7));
}

#[test]
fn counts_are_read_as_std_reads_them() {
    let texts = [
        "0",
        "5",
        "+5",
        "007",
        "18446744073709551615",
        "18446744073709551616",
        "99999999999999999999999",
        "4294967296",
        "",
        "+",
        "-1",
        "++1",
        " 5",
        "5 ",
        "5.0",
        "1_000",
        "٣",
        "999999999999999999999x",
    ];
    for text in texts {
        assert_eq!(parse_count(text), text.parse::<usize>().ok());
    }
}

#[test]
fn validation_names_the_first_fault() {
    let mut config = Config::default();
    config.max_search_results = 0;
    assert_eq!(config.validate(), Err(ConfigError::NoSearchResults));
    config.temperature = single(-0.1);
    assert_eq!(config.validate(), Err(ConfigError::TemperatureOutOfRange));
    config.model = String::new();
    assert_eq!(config.validate(), Err(ConfigError::EmptyModel));
}

#[test]
fn faults_are_put_in_words() {
    assert_eq!(ConfigError::EmptyModel.message(), "OLLAMA_MODEL cannot be empty");
    assert_eq!(
        ConfigError::TemperatureOutOfRange.message(),
        "TEMPERATURE must be between 0.0 and 2.0"
    );
    assert_eq!(ConfigError::NoSearchResults.message(), "MAX_SEARCH_RESULTS must be at least 1");
}

#[test]
fn temperatures_from_zero_to_two_are_accepted() {
    let values = [
        0.0,
        -0.0,
        0.7,
        2.0,
        2.0000002,
        1.0e-45,
        -1.0e-45,
        -1.0,
        3.0,
        f32::INFINITY,
        f32::NEG_INFINITY,
        f32::NAN,
        -f32::NAN,
    ];
    for value in values {
        let mut config = Config::default();
        config.temperature = single(value);
        assert_eq!(config.validate().is_ok(), (0.0..=2.0).contains(&value));
    }
}
