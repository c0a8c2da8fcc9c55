use llmnop::config::{ApiFlavor, Args, ConfigError, OutputFormat};

fn args() -> Args {
    Args {
        url: Some("http://localhost:8000/v1".to_string()),
        api_key: None,
        model: Some("m".to_string()),
        api: ApiFlavor::Chat,
        mean_input_tokens: 550,
        stddev_input_tokens: 150,
        mean_output_tokens: Some(150),
        stddev_output_tokens: 10,
        max_num_completed_requests: 4,
        num_concurrent_requests: 8,
        timeout: 600,
        tokenizer: None,
        use_server_token_count: false,
        output_format: OutputFormat::Table,
        json: true,
        quiet: false,
    }
}

#[test]
fn valid_options_make_a_config() {
    let c = args().into_config().unwrap();
    assert_eq!(c.concurrency, 4);
    assert_eq!(c.tokenizer, "m");
    assert_eq!(c.output_format, OutputFormat::Json);
    assert_eq!(c.prompt.mean_output_tokens, Some(150));
}

#[test]
fn missing_or_invalid_options_are_rejected() {
    let mut a = args();
    a.url = None;
    assert_eq!(a.into_config(), Err(ConfigError::MissingUrl));
    let mut a = args();
    a.model = Some(String::new());
    assert_eq!(a.into_config(), Err(ConfigError::MissingModel));
    let mut a = args();
    a.max_num_completed_requests = 0;
    assert_eq!(a.into_config(), Err(ConfigError::NoRequests));
    let mut a = args();
    a.num_concurrent_requests = 0;
    assert_eq!(a.into_config(), Err(ConfigError::NoConcurrency));
}
