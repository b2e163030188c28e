use plaid::config::{
    default_log_queue_size, parse_response_mode, CachingMode, ConfigurationError, Configuration,
    GetMode, LoaderConfiguration, LoggingConfiguration, ModuleConfig, ResponseMode,
    WebhookConfig,
};
use plaid::apis::Apis;
use plaid::data::DataConfig;
use plaid::interpolate::interpolate_secrets;
use plaid::messages::{LogSource, LogbacksAllowed};

fn module(name: &str, fuel: u64) -> ModuleConfig {
    ModuleConfig {
        name: name.to_string(),
        channels: Vec::new(),
        fuel_limit: fuel,
        memory_limit_pages: 16,
        test_mode_allowed: false,
        persistent_response: false,
        logbacks_allowed_override: None,
    }
}

fn configuration(threads: u8, modules: Vec<ModuleConfig>) -> Configuration {
    Configuration {
        apis: Apis { yubikey: None },
        data: DataConfig { github: None, okta: None, internal: None, interval: None },
        execution_threads: threads,
        log_queue_size: default_log_queue_size(),
        storage: None,
        logging: LoggingConfiguration { benchmarking: None },
        webhooks: Vec::new(),
        loading: LoaderConfiguration { modules },
    }
}

#[test]
fn response_mode_facebook() {
    match parse_response_mode("facebook:SEKRET") {
        Ok(ResponseMode::Facebook(secret)) => assert_eq!(secret, "SEKRET"),
        _ => panic!("expected the challenge mode"),
    }
    match parse_response_mode("meta:S2") {
        Ok(ResponseMode::Facebook(secret)) => assert_eq!(secret, "S2"),
        _ => panic!("expected the challenge mode"),
    }
}

#[test]
fn response_mode_rule_and_static() {
    match parse_response_mode("rule:mod-a") {
        Ok(ResponseMode::Rule(m)) => assert_eq!(m, "mod-a"),
        _ => panic!("expected the rule mode"),
    }
    match parse_response_mode("Rule:mod-b") {
        Ok(ResponseMode::Rule(m)) => assert_eq!(m, "mod-b"),
        _ => panic!("expected the rule mode"),
    }
    match parse_response_mode("static:ok") {
        Ok(ResponseMode::Static(b)) => assert_eq!(b, "ok"),
        _ => panic!("expected the static mode"),
    }
    match parse_response_mode("Static:") {
        Ok(ResponseMode::Static(b)) => assert_eq!(b, ""),
        _ => panic!("expected the static mode"),
    }
}

#[test]
fn response_mode_takes_last_two_pieces() {
    match parse_response_mode("ignored:rule:mod-c") {
        Ok(ResponseMode::Rule(m)) => assert_eq!(m, "mod-c"),
        _ => panic!("expected the rule mode from the last two pieces"),
    }
}

#[test]
fn response_mode_errors() {
    assert!(matches!(
        parse_response_mode("no-colon-here"),
        Err(ConfigurationError::ParsingError)
    ));
    assert!(matches!(
        parse_response_mode("unknown:data"),
        Err(ConfigurationError::ParsingError)
    ));
    assert!(matches!(parse_response_mode(""), Err(ConfigurationError::ParsingError)));
}

#[test]
fn validation_accepts_sound_configuration() {
    let config = configuration(4, vec![module("a", 1_000)]);
    assert!(config.validate().is_ok());
}

#[test]
fn validation_refuses_zero_threads() {
    let config = configuration(0, vec![module("a", 1_000)]);
    assert!(matches!(config.validate(), Err(ConfigurationError::ExecutionThreadsInvalid)));
}

#[test]
fn validation_refuses_zero_fuel() {
    let config = configuration(2, vec![module("a", 1_000), module("b", 0)]);
    assert!(matches!(config.validate(), Err(ConfigurationError::ComputationLimitInvalid)));
}

#[test]
fn configuration_error_descriptions() {
    assert_eq!(
        ConfigurationError::FileError.description(),
        "There was an error finding or reading the configuration file"
    );
    assert_eq!(
        ConfigurationError::ParsingError.description(),
        "The format of the configuration file was incorrect"
    );
    assert_eq!(
        ConfigurationError::ComputationLimitInvalid.description(),
        "The computation limit must be non zero"
    );
    assert_eq!(
        ConfigurationError::ExecutionThreadsInvalid.description(),
        "The number of execution threads must be between 1 and 255"
    );
}

#[test]
fn default_queue_size_is_2048() {
    assert_eq!(default_log_queue_size(), 2048);
}

#[test]
fn secret_interpolation() {
    let config = b"token = \"{{slack_token}}\"".to_vec();
    let secrets = vec![(b"{{slack_token}}".to_vec(), b"xoxb-abc".to_vec())];
    let out = interpolate_secrets(&config, &secrets);
    assert_eq!(out, b"token = \"xoxb-abc\"".to_vec());
}

#[test]
fn secret_interpolation_is_idempotent_on_substituted_text() {
    let config = b"token = \"{{slack_token}}\" again {{slack_token}}".to_vec();
    let secrets = vec![(b"{{slack_token}}".to_vec(), b"xoxb-abc".to_vec())];
    let once = interpolate_secrets(&config, &secrets);
    assert_eq!(once, b"token = \"xoxb-abc\" again xoxb-abc".to_vec());
    let twice = interpolate_secrets(&once, &secrets);
    assert_eq!(twice, once);
}

#[test]
fn secret_interpolation_applies_each_secret() {
    let config = b"a={{x}} b={{y}}".to_vec();
    let secrets = vec![
        (b"{{x}}".to_vec(), b"1".to_vec()),
        (b"{{y}}".to_vec(), b"2".to_vec()),
    ];
    assert_eq!(interpolate_secrets(&config, &secrets), b"a=1 b=2".to_vec());
}

#[test]
fn webhook_admission_sets_budget_and_source() {
    let hook = WebhookConfig {
        log_type: "chan".to_string(),
        headers: Vec::new(),
        get_mode: None,
        label: "friendly".to_string(),
        has_label: true,
        logbacks_allowed: LogbacksAllowed::Limited(2),
    };
    let m = hook.admit_message(&"10.0.0.1:8080/hook".to_string(), b"body".to_vec(), Vec::new());
    assert_eq!(m.type_, "chan");
    assert_eq!(m.data, b"body".to_vec());
    assert_eq!(m.logbacks_allowed, LogbacksAllowed::Limited(2));
    assert!(matches!(m.source, LogSource::Webhook(ref s) if s == "friendly"));

    let unlabeled = WebhookConfig { has_label: false, ..hook };
    let m2 = unlabeled.admit_message(&"10.0.0.1:8080/hook".to_string(), Vec::new(), Vec::new());
    assert!(matches!(m2.source, LogSource::Webhook(ref s) if s == "10.0.0.1:8080/hook"));
}

#[test]
fn get_mode_carries_caching() {
    let mode = GetMode {
        caching_mode: CachingMode::Timed { validity: 60 },
        response_mode: ResponseMode::Static("ok".to_string()),
    };
    assert!(matches!(mode.caching_mode, CachingMode::Timed { validity: 60 }));
}
