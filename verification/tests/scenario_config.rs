use swift_mt_message::sample::SampleGenerator;
use swift_mt_message::scenario_config::{parse_env_paths, ScenarioConfig};

#[test]
fn test_scenario_config_default() {
    let config = ScenarioConfig::default();
    assert_eq!(config.base_paths.len(), 2);
    assert_eq!(config.base_paths[0], "test_scenarios");
    assert_eq!(config.base_paths[1], "../test_scenarios");
}

#[test]
fn test_scenario_config_with_paths() {
    let paths = vec!["/custom/path1".to_string(), "/custom/path2".to_string()];
    let config = ScenarioConfig::with_paths(paths.clone());
    assert_eq!(config.base_paths, paths);
}

#[test]
fn test_scenario_config_add_path() {
    let config = ScenarioConfig::new()
        .add_path("/path1".to_string())
        .add_path("/path2".to_string());
    assert!(config.base_paths.contains(&"/path1".to_string()));
    assert!(config.base_paths.contains(&"/path2".to_string()));
}

#[test]
fn test_scenario_config_set_paths() {
    let config = ScenarioConfig::new()
        .add_path("/old".to_string())
        .set_paths(vec!["/new1".to_string(), "/new2".to_string()]);
    assert_eq!(config.base_paths.len(), 2);
    assert!(!config.base_paths.contains(&"/old".to_string()));
    assert!(config.base_paths.contains(&"/new1".to_string()));
    assert!(config.base_paths.contains(&"/new2".to_string()));
}

#[test]
fn test_parse_env_paths_unix() {
    let paths = parse_env_paths("/path1:/path2:/path3");
    assert_eq!(paths.len(), 3);
    assert_eq!(paths[0], "/path1");
    assert_eq!(paths[1], "/path2");
    assert_eq!(paths[2], "/path3");
}

#[test]
fn test_parse_env_paths_empty_segments() {
    let paths = parse_env_paths("/path1::/path2:");
    assert_eq!(paths.len(), 2);
    assert_eq!(paths[0], "/path1");
    assert_eq!(paths[1], "/path2");
}

#[test]
fn env_value_replaces_defaults_unless_empty() {
    let c = ScenarioConfig::from_env_value(Some("/a:/b"));
    assert_eq!(c.base_paths, vec!["/a".to_string(), "/b".to_string()]);
    let d = ScenarioConfig::from_env_value(Some("::"));
    assert_eq!(d.base_paths, ScenarioConfig::default().base_paths);
    let e = ScenarioConfig::from_env_value(None);
    assert_eq!(e.base_paths.len(), 2);
}

#[test]
fn sample_generator_paths() {
    let g = SampleGenerator::new().with_path("/extra".to_string());
    assert_eq!(g.config().base_paths.len(), 3);
    let h = g.with_paths(vec!["/only".to_string()]);
    assert_eq!(h.config().base_paths, vec!["/only".to_string()]);
    let k = SampleGenerator::with_config(ScenarioConfig::with_paths(vec![]));
    assert!(k.config().base_paths.is_empty());
}
