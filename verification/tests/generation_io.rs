use shenron::config::ShenronConfig;
use shenron::pipeline::generate;
use shenron::quote::quote_arg;

#[test]
fn generates_expected_files() {
    let out = "/tmp/shenron-out".to_string();
    let plan = generate(&ShenronConfig::default(), &out).expect("generate");

    assert_eq!(plan.written_paths.len(), 5);
    assert!(plan.written_paths.contains(&"/tmp/shenron-out/docker-compose.yml".to_string()));
    assert!(plan
        .written_paths
        .contains(&"/tmp/shenron-out/.generated/onwards_config.json".to_string()));
    assert!(plan.written_paths.contains(&"/tmp/shenron-out/.generated/prometheus.yml".to_string()));
    assert!(plan
        .written_paths
        .contains(&"/tmp/shenron-out/.generated/scouter_reporter.env".to_string()));
    assert!(plan.written_paths.contains(&"/tmp/shenron-out/.generated/vllm_start.sh".to_string()));
}

#[test]
fn rerunning_generate_overwrites_without_leftovers() {
    let out = "/srv/deploy".to_string();
    let mut config = ShenronConfig::default();
    let plan = generate(&config, &out).expect("generate");

    config.model_name = "Other/Model".to_string();
    let plan2 = generate(&config, &out).expect("generate again");

    // the second run targets exactly the same five files, no extras
    assert_eq!(plan.written_paths, plan2.written_paths);
    assert_eq!(plan2.artifacts.len(), 5);
    assert_eq!(plan2.dirs, plan.dirs);
    let paths: Vec<&String> = plan2.artifacts.iter().map(|a| &a.path).collect();
    let mut sorted = paths.clone();
    sorted.sort();
    sorted.dedup();
    assert_eq!(sorted.len(), 5);
    // and replaces content derived from the changed config
    let env = plan2
        .artifacts
        .iter()
        .find(|a| a.path.ends_with("scouter_reporter.env"))
        .expect("env artifact");
    assert!(env.content.contains("MODEL_NAME=Other/Model\n"));
}

#[test]
fn quoting_wraps_unsafe_values() {
    // a value with a space cannot pass through unchanged
    assert_eq!(quote_arg(&"hello world".to_string()).unwrap(), "'hello world'");
    assert_eq!(quote_arg(&"plain-value.1".to_string()).unwrap(), "plain-value.1");
    assert_eq!(quote_arg(&"".to_string()).unwrap(), "''");
    assert!(quote_arg(&"a\u{0}b".to_string()).is_err());
}
