use ninja::config::{
    required_api_key, DockerConfig, ExecutionConfig, ImprovementConfig, DEFAULT_BASE_URL,
    DEFAULT_MAX_TOKENS,
};
use ninja::error::NinjaError;

#[test]
fn default_docker_settings() {
    let d = DockerConfig::default();
    assert!(d.enabled);
    assert_eq!(d.base_image, "python:3.12-slim");
    assert_eq!(d.timeout_seconds, 300);
    assert_eq!(d.memory_limit, "1g");
    assert_eq!(d.cpu_limit, "1.0");
}

#[test]
fn default_execution_and_improvement_settings() {
    let e = ExecutionConfig::default();
    assert_eq!((e.max_retries, e.timeout_seconds, e.max_tools_per_session), (3, 120, 50));
    let i = ImprovementConfig::default();
    assert!(i.enabled);
    assert_eq!(i.challenge_generation_rate, 10);
    assert_eq!(i.analysis_frequency, 100);
    assert!(!i.auto_deploy);
}

#[test]
fn default_service_settings() {
    assert_eq!(DEFAULT_BASE_URL, "https://openrouter.ai/api/v1");
    assert_eq!(DEFAULT_MAX_TOKENS, 8192);
}

#[test]
fn api_key_is_required() {
    assert_eq!(required_api_key(Some("k".to_string())).unwrap(), "k");
    match required_api_key(None) {
        Err(NinjaError::Config(m)) => assert_eq!(m, "OPENROUTER_API_KEY environment variable not set"),
        other => panic!("unexpected {:?}", other),
    }
}
