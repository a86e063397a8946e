use auto_test::cli::GenerateArgs;
use auto_test::cli::apply_generate_args;
use auto_test::config::Config;
use auto_test::config::LegacyConfig;
use auto_test::config::MapEntry;

#[test]
fn test_default_config() {
    let config = Config::default();
    assert_eq!(config.output_dir, "tests");
    assert!(!config.include_private);
    assert!(config.respect_gitignore);
}

#[test]
fn test_should_skip_function() {
    let mut config = Config::default();
    config.skip_functions = vec!["test_".to_string(), "skip_me".to_string()];

    assert!(config.should_skip_function("test_function"));
    assert!(config.should_skip_function("some_skip_me_function"));
    assert!(!config.should_skip_function("normal_function"));
}

#[test]
fn test_default_config_details() {
    let config = Config::default();
    assert_eq!(config.generation.strategy, "integration");
    assert_eq!(config.generation.output_dir, "tests");
    assert_eq!(config.timeout_seconds, 300);
    assert_eq!(config.parallel_chunk_size, 25);
    assert!(config.parallel);
    assert_eq!(config.skip_patterns.len(), 3);
    assert_eq!(config.skip_patterns[0], "**/target/**");
    assert_eq!(config.skip_patterns[1], "**/.git/**");
    assert_eq!(config.skip_patterns[2], "**/node_modules/**");
    assert_eq!(config.project.baseline_branch, Some("main".to_string()));
    assert_eq!(config.types.mappings.len(), 2);
    assert_eq!(config.types.mappings[0].key, "PathBuf");
    assert_eq!(config.types.mappings[1].key, "Uuid");
}

#[test]
fn test_get_type_mapping() {
    let mut config = Config::default();
    config.type_mappings = vec![
        MapEntry { key: "MyCustomType".to_string(), value: "MyCustomType::new()".to_string() },
        MapEntry { key: "Other".to_string(), value: "other()".to_string() },
    ];
    assert_eq!(config.get_type_mapping("MyCustomType").unwrap(), "MyCustomType::new()");
    assert_eq!(config.get_type_mapping("Other").unwrap(), "other()");
    assert!(config.get_type_mapping("Missing").is_none());
}

#[test]
fn test_from_legacy() {
    let mut legacy = LegacyConfig::default();
    legacy.output_dir = "custom_tests".to_string();
    legacy.include_private = true;
    legacy.skip_functions = vec!["internal_".to_string()];
    legacy.respect_gitignore = false;
    let config = Config::from_legacy(legacy);
    assert_eq!(config.output_dir, "custom_tests");
    assert_eq!(config.generation.output_dir, "custom_tests");
    assert!(config.include_private);
    assert!(config.should_skip_function("internal_func"));
    assert!(!config.respect_gitignore);
    assert_eq!(config.generation.strategy, "integration");
}

#[test]
fn test_sync_legacy_fields() {
    let mut config = Config::default();
    config.generation.output_dir = "elsewhere".to_string();
    config.generation.include_private = true;
    config.performance.parallel = false;
    config.types.mappings = vec![MapEntry { key: "K".to_string(), value: "V".to_string() }];
    let config = config.sync_legacy_fields();
    assert_eq!(config.output_dir, "elsewhere");
    assert!(config.include_private);
    assert!(!config.parallel);
    assert_eq!(config.type_mappings.len(), 1);
    assert_eq!(config.type_mappings[0].key, "K");
}

#[test]
fn test_apply_generate_args() {
    let config = Config::default();
    let args = GenerateArgs {
        path: ".".to_string(),
        config_path: None,
        output_dir: Some("gen".to_string()),
        include_private: true,
        skip_prefixes: vec!["bench_".to_string()],
        no_parallel: true,
        no_gitignore: true,
    };
    let merged = apply_generate_args(config, &args);
    assert_eq!(merged.output_dir, "gen");
    assert!(merged.include_private);
    assert!(merged.should_skip_function("bench_mark"));
    assert!(!merged.parallel);
    assert!(!merged.respect_gitignore);
}
