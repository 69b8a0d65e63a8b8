use shenron::errors::ShenronError;
use shenron::resolve::{TargetView, is_config_candidate, resolve_config_path};

fn dir_view(names: &[&str]) -> TargetView {
    TargetView::Dir { file_names: names.iter().map(|n| n.to_string()).collect() }
}

#[test]
fn resolves_single_config_file_from_directory() {
    let dir = String::from("/work/deploy");
    let view = dir_view(&["Qwen06B-cu126-TP1.yml"]);
    let resolved = resolve_config_path(&dir, &view).expect("resolve");
    assert_eq!(resolved, "/work/deploy/Qwen06B-cu126-TP1.yml");
}

#[test]
fn directory_resolution_ignores_generated_compose_file() {
    let dir = String::from("/work/deploy");
    let view = dir_view(&["Qwen06B-cu126-TP1.yml", "docker-compose.yml"]);
    let resolved = resolve_config_path(&dir, &view).expect("resolve");
    assert_eq!(resolved, "/work/deploy/Qwen06B-cu126-TP1.yml");
}

#[test]
fn single_candidate_wins_regardless_of_other_files() {
    let dir = String::from("/srv");
    let view = dir_view(&["notes.txt", "conf.yaml", "README.md", "data.json", ".yml"]);
    let resolved = resolve_config_path(&dir, &view).expect("resolve");
    assert_eq!(resolved, "/srv/conf.yaml");
}

#[test]
fn missing_target_is_reported() {
    let target = String::from("/nowhere");
    let err = resolve_config_path(&target, &TargetView::Missing).unwrap_err();
    assert!(matches!(err, ShenronError::MissingTarget(ref p) if p == "/nowhere"));
    assert_eq!(err.message(), "target path does not exist: /nowhere");
}

#[test]
fn file_target_is_taken_verbatim() {
    let target = String::from("anything.txt");
    let resolved = resolve_config_path(&target, &TargetView::File).expect("resolve");
    assert_eq!(resolved, "anything.txt");
}

#[test]
fn empty_directory_has_no_config() {
    let dir = String::from("/srv");
    let err = resolve_config_path(&dir, &dir_view(&["notes.txt"])).unwrap_err();
    assert!(matches!(err, ShenronError::MissingConfig(ref p) if p == "/srv"));
    assert_eq!(err.message(), "no config file (*.yml or *.yaml) found in /srv");
}

#[test]
fn two_candidates_are_ambiguous_with_sorted_names() {
    let dir = String::from("/srv");
    let err = resolve_config_path(&dir, &dir_view(&["b.yml", "a.yml"])).unwrap_err();
    match err {
        ShenronError::AmbiguousConfig { dir: d, files } => {
            assert_eq!(d, "/srv");
            assert_eq!(files, "a.yml, b.yml");
        }
        other => panic!("unexpected error: {:?}", other),
    }
}

#[test]
fn shenron_yml_is_preferred_among_candidates() {
    let dir = String::from("/srv");
    let view = dir_view(&["a.yml", "shenron.yml", "z.yaml"]);
    let resolved = resolve_config_path(&dir, &view).expect("resolve");
    assert_eq!(resolved, "/srv/shenron.yml");
}

#[test]
fn shenron_yaml_is_preferred_when_yml_absent() {
    let dir = String::from("/srv");
    let view = dir_view(&["a.yml", "shenron.yaml"]);
    let resolved = resolve_config_path(&dir, &view).expect("resolve");
    assert_eq!(resolved, "/srv/shenron.yaml");
}

#[test]
fn candidate_rules_follow_extension_and_name() {
    assert!(is_config_candidate(&"a.yml".to_string()));
    assert!(is_config_candidate(&"a.yaml".to_string()));
    assert!(is_config_candidate(&"docker-compose.backup.yml".to_string()));
    assert!(!is_config_candidate(&"docker-compose.yml".to_string()));
    assert!(!is_config_candidate(&"docker-compose.yaml".to_string()));
    assert!(!is_config_candidate(&"a.txt".to_string()));
    assert!(!is_config_candidate(&".yml".to_string()));
    assert!(!is_config_candidate(&".yaml".to_string()));
    assert!(!is_config_candidate(&"yaml".to_string()));
}
