use shenron::config::{ShenronConfig, is_unit_interval_decimal, trimmed_nonempty};
use shenron::errors::ShenronError;

#[test]
fn default_config_validates() {
    let config = ShenronConfig::default();
    assert!(config.validate().is_ok());
}

#[test]
fn gpu_memory_utilization_bounds_are_inclusive() {
    let mut config = ShenronConfig::default();
    config.gpu_memory_utilization = "1.5".to_string();
    let err = config.validate().unwrap_err();
    assert!(
        matches!(err, ShenronError::Validation(ref m) if m == "gpu_memory_utilization must be between 0 and 1")
    );

    config.gpu_memory_utilization = "-0.1".to_string();
    assert!(config.validate().is_err());

    config.gpu_memory_utilization = "0.0".to_string();
    assert!(config.validate().is_ok());

    config.gpu_memory_utilization = "1.0".to_string();
    assert!(config.validate().is_ok());
}

#[test]
fn tensor_parallel_size_must_be_positive() {
    let mut config = ShenronConfig::default();
    config.tensor_parallel_size = 0;
    let err = config.validate().unwrap_err();
    assert!(
        matches!(err, ShenronError::Validation(ref m) if m == "tensor_parallel_size must be greater than 0")
    );

    config.tensor_parallel_size = 1;
    assert!(config.validate().is_ok());
}

#[test]
fn blank_model_name_is_rejected() {
    let mut config = ShenronConfig::default();
    config.model_name = "   ".to_string();
    let err = config.validate().unwrap_err();
    assert!(matches!(err, ShenronError::Validation(ref m) if m == "model_name must be set"));
    assert_eq!(err.message(), "config validation failed: model_name must be set");
}

#[test]
fn blank_shenron_version_is_rejected() {
    let mut config = ShenronConfig::default();
    config.shenron_version = "\t\n".to_string();
    let err = config.validate().unwrap_err();
    assert!(matches!(err, ShenronError::Validation(ref m) if m == "shenron_version must be set"));
}

#[test]
fn unit_interval_decimal_cases() {
    for ok in ["0", "1", "0.0", "1.0", "0.7", "00.5", "1.000", "-0", "-0.000", "0.999999"] {
        assert!(is_unit_interval_decimal(&ok.to_string()), "{ok} should pass");
    }
    for bad in ["", ".", "1.5", "-0.1", "2", "10", "1.01", "0.", ".5", "-", "abc", "0..5", "NaN", "inf", "1e-3"] {
        assert!(!is_unit_interval_decimal(&bad.to_string()), "{bad} should fail");
    }
}

#[test]
fn trimming_recognizes_whitespace() {
    assert!(!trimmed_nonempty(&"".to_string()));
    assert!(!trimmed_nonempty(&" \t\r\n".to_string()));
    assert!(trimmed_nonempty(&"  x ".to_string()));
    assert!(!trimmed_nonempty(&"\u{a0}".to_string()));
}

#[test]
fn collector_url_is_synthesized_or_taken_verbatim() {
    let mut config = ShenronConfig::default();
    assert_eq!(config.scouter_collector_url(), "http://host.docker.internal:4321");
    config.scouter_collector_url = Some("http://example.test:9".to_string());
    assert_eq!(config.scouter_collector_url(), "http://example.test:9");
}
