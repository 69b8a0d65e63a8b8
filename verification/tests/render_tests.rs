use shenron::config::ShenronConfig;
use shenron::errors::ShenronError;
use shenron::json::JsonValue;
use shenron::render::{
    render_compose, render_onwards_config, render_prometheus_config, render_scouter_reporter_env,
    render_vllm_start,
};

#[test]
fn compose_contains_concrete_image_tags() {
    let config = ShenronConfig::default();
    let compose = render_compose(&config);
    assert!(compose.contains("ghcr.io/doublewordai/shenron:latest-cu126"));
    assert!(compose.contains("ghcr.io/doublewordai/onwards:latest"));
    assert!(!compose.contains("${SHENRON_VERSION}"));
}

#[test]
fn compose_substitutes_ports_and_versions() {
    let mut config = ShenronConfig::default();
    config.cuda_version = 128;
    config.shenron_version = "v9".to_string();
    config.onwards_port = 3100;
    config.prometheus_port = 9999;
    config.prometheus_version = "v3.0.0".to_string();
    let compose = render_compose(&config);
    assert!(compose.starts_with("name: shenron-cu128\n"));
    assert!(compose.contains("ghcr.io/doublewordai/shenron:v9-cu128"));
    assert!(compose.contains("\"--port\",\"3100\""));
    assert!(compose.contains("      - \"3100:3100\"\n"));
    assert!(compose.contains("prom/prometheus:v3.0.0"));
    assert!(compose.contains("      - \"9999:9999\"\n"));
    assert!(compose.contains("extra_hosts:\n      - \"host.docker.internal:host-gateway\"\n"));
    assert!(compose.contains("depends_on:\n      - prometheus"));
}

#[test]
fn prometheus_config_has_fixed_interval_and_path() {
    let mut config = ShenronConfig::default();
    config.vllm_port = 8123;
    let text = render_prometheus_config(&config);
    assert_eq!(
        text,
        "global:\n  scrape_interval: 15s\n\nscrape_configs:\n  - job_name: vllm\n    metrics_path: /metrics\n    static_configs:\n      - targets: [\"vllm:8123\"]\n"
    );
}

#[test]
fn reporter_env_lines_are_exact_and_ordered() {
    let mut config = ShenronConfig::default();
    config.model_name = "m".to_string();
    config.scouter_reporter_interval = 42;
    config.scouter_ingest_api_key = "k".to_string();
    let text = render_scouter_reporter_env(&config);
    assert_eq!(
        text,
        "SCOUTER_MODE=reporter\nPROMETHEUS_URL=http://prometheus:9090\nCOLLECTOR_URL=http://host.docker.internal:4321\nREPORTER_INTERVAL=42\nMODEL_NAME=m\nSCOUTER_INGEST_API_KEY=k\n"
    );
}

#[test]
fn onwards_config_is_pretty_json() {
    let mut config = ShenronConfig::default();
    config.model_name = "m\"x".to_string();
    config.api_key = "sk-1".to_string();
    config.vllm_port = 8000;
    let text = render_onwards_config(&config).expect("render");
    assert_eq!(
        text,
        "{\n  \"targets\": {\n    \"m\\\"x\": {\n      \"keys\": [\n        \"sk-1\"\n      ],\n      \"onwards_model\": \"m\\\"x\",\n      \"url\": \"http://vllm:8000/v1\"\n    }\n  }\n}"
    );
}

#[test]
fn launch_script_has_strict_header_and_quoted_args() {
    let config = ShenronConfig::default();
    let script = render_vllm_start(&config).expect("render");
    assert!(script.starts_with("#!/usr/bin/env bash\nset -euo pipefail\n\n"));
    assert!(script.contains("export VLLM_FLASHINFER_MOE_BACKEND=throughput\n"));
    assert!(script.contains("exec vllm serve --model Qwen/Qwen3-0.6B --port 8000"));
    assert!(script.contains("--gpu-memory-utilization 0.7"));
    assert!(script.contains("--tensor-parallel-size 1"));
    assert!(script.contains("--limit-mm-per-prompt.video 0"));
    // the override blob travels as one single-quoted argument
    assert!(script.contains(
        "--override-generation-config '{\"max_new_tokens\":16384,\"min_p\":0,\"presence_penalty\":1.5,\"temperature\":0.7,\"top_k\":20,\"top_p\":0.8}'"
    ));
    assert!(script.contains("--trust-remote-code"));
    assert!(script.contains("--async-scheduling"));
    assert!(script.contains("--enable-auto-tool-choice"));
    assert!(script.ends_with("\n"));
}

#[test]
fn launch_script_omits_disabled_flags() {
    let mut config = ShenronConfig::default();
    config.trust_remote_code = false;
    config.async_scheduling = false;
    config.enable_auto_tool_choice = false;
    let script = render_vllm_start(&config).expect("render");
    assert!(!script.contains("--trust-remote-code"));
    assert!(!script.contains("--async-scheduling"));
    assert!(!script.contains("--enable-auto-tool-choice"));
}

#[test]
fn nul_byte_in_argument_yields_quote_error() {
    let mut config = ShenronConfig::default();
    config.model_name = "bad\u{0}name".to_string();
    let err = render_vllm_start(&config).unwrap_err();
    assert!(matches!(err, ShenronError::Quote(ref v) if v == "bad\u{0}name"));
}

#[test]
fn nul_byte_via_override_yields_quote_error() {
    let mut config = ShenronConfig::default();
    config.override_generation_config = JsonValue::Num("1\u{0}2".to_string());
    let err = render_vllm_start(&config).unwrap_err();
    assert!(matches!(err, ShenronError::Quote(ref v) if v.contains('\u{0}')));
}

#[test]
fn nul_byte_in_backend_yields_quote_error() {
    let mut config = ShenronConfig::default();
    config.vllm_flashinfer_moe_backend = "a\u{0}".to_string();
    let err = render_vllm_start(&config).unwrap_err();
    assert!(matches!(err, ShenronError::Quote(ref v) if v == "a\u{0}"));
    assert_eq!(err.message(), "argument contains unsupported null byte: a\u{0}");
}
