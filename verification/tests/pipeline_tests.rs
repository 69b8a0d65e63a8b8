use shenron::config::ShenronConfig;
use shenron::errors::ShenronError;
use shenron::pipeline::{LoadInput, default_output_dir, generate, generate_from_target, load_config};
use shenron::resolve::TargetView;

#[test]
fn default_config_plan_has_exactly_five_files() {
    let config = ShenronConfig::default();
    let plan = generate(&config, &"/out".to_string()).expect("generate");
    assert_eq!(plan.written_paths.len(), 5);
    assert_eq!(
        plan.written_paths,
        vec![
            "/out/docker-compose.yml".to_string(),
            "/out/.generated/onwards_config.json".to_string(),
            "/out/.generated/prometheus.yml".to_string(),
            "/out/.generated/scouter_reporter.env".to_string(),
            "/out/.generated/vllm_start.sh".to_string(),
        ]
    );
    assert_eq!(plan.dirs, vec!["/out".to_string(), "/out/.generated".to_string()]);
    assert_eq!(plan.artifacts.len(), 5);
    // only the launch script is executable
    assert!(plan.artifacts.iter().filter(|a| a.executable).count() == 1);
    assert!(plan.artifacts[0].path.ends_with("docker-compose.yml"));
    assert!(plan.artifacts[4].path.ends_with("vllm_start.sh") && plan.artifacts[4].executable);
}

#[test]
fn load_config_maps_read_and_parse_failures() {
    let path = "/p/conf.yml".to_string();
    let err = load_config(&path, LoadInput::ReadFailed("denied".to_string())).unwrap_err();
    assert!(
        matches!(err, ShenronError::ReadFile { ref path, ref cause } if path == "/p/conf.yml" && cause == "denied")
    );
    assert_eq!(err.message(), "failed to read /p/conf.yml: denied");

    let err = load_config(&path, LoadInput::ParseFailed("unknown field".to_string())).unwrap_err();
    assert!(
        matches!(err, ShenronError::ParseConfig { ref path, ref cause } if path == "/p/conf.yml" && cause == "unknown field")
    );
    assert_eq!(err.message(), "failed to parse YAML config /p/conf.yml: unknown field");
}

#[test]
fn load_config_validates_parsed_document() {
    let path = "/p/conf.yml".to_string();
    let mut config = ShenronConfig::default();
    config.tensor_parallel_size = 0;
    let err = load_config(&path, LoadInput::Parsed(config)).unwrap_err();
    assert!(matches!(err, ShenronError::Validation(_)));

    let ok = load_config(&path, LoadInput::Parsed(ShenronConfig::default()));
    assert!(ok.is_ok());
}

#[test]
fn default_output_dir_follows_target_kind() {
    let target = "/work/deploy".to_string();
    assert_eq!(default_output_dir(&target, true, &None), "/work/deploy");
    let file_target = "/work/deploy/conf.yml".to_string();
    assert_eq!(
        default_output_dir(&file_target, false, &Some("/work/deploy".to_string())),
        "/work/deploy"
    );
    assert_eq!(default_output_dir(&"conf.yml".to_string(), false, &None), ".");
}

#[test]
fn pipeline_composes_resolution_load_and_plan() {
    let target = "/work/deploy".to_string();
    let view = TargetView::Dir { file_names: vec!["shenron.yml".to_string()] };
    let plan = generate_from_target(
        &target,
        &view,
        None,
        &Some("/work".to_string()),
        LoadInput::Parsed(ShenronConfig::default()),
    )
    .expect("generate");
    // a directory target is its own output directory
    assert_eq!(plan.written_paths[0], "/work/deploy/docker-compose.yml");
    assert_eq!(plan.written_paths[4], "/work/deploy/.generated/vllm_start.sh");
}

#[test]
fn pipeline_honours_explicit_output_dir() {
    let target = "/work/deploy".to_string();
    let view = TargetView::Dir { file_names: vec!["shenron.yml".to_string()] };
    let out = "/elsewhere".to_string();
    let plan = generate_from_target(
        &target,
        &view,
        Some(&out),
        &Some("/work".to_string()),
        LoadInput::Parsed(ShenronConfig::default()),
    )
    .expect("generate");
    assert_eq!(plan.written_paths[0], "/elsewhere/docker-compose.yml");
}

#[test]
fn pipeline_stops_at_resolution_failure() {
    let err = generate_from_target(
        &"/missing".to_string(),
        &TargetView::Missing,
        None,
        &None,
        LoadInput::Parsed(ShenronConfig::default()),
    )
    .unwrap_err();
    assert!(matches!(err, ShenronError::MissingTarget(_)));
}

#[test]
fn write_file_and_json_errors_render_messages() {
    let err = ShenronError::WriteFile { path: "/o/x".to_string(), cause: "full".to_string() };
    assert_eq!(err.message(), "failed to write /o/x: full");
    let err = ShenronError::Json("bad".to_string());
    assert_eq!(err.message(), "failed to serialize JSON: bad");
}
