use auto_test::config::Config;
use auto_test::config::MapEntry;
use auto_test::models::FunctionInfo;
use auto_test::models::ParamInfo;
use auto_test::models::ProjectInfo;
use auto_test::models::TypeIntern;
use auto_test::rust_gen::RustGenerator;

fn config_with_mapping(key: &str, value: &str) -> Config {
    let mut config = Config::default();
    config.type_mappings = vec![MapEntry { key: key.to_string(), value: value.to_string() }];
    config
}

#[test]
fn test_value_synthesis_deterministic() {
    let config = Config::default();
    let a = RustGenerator::generate_smart_value_enhanced("Option<Vec<String>>", &config);
    let b = RustGenerator::generate_smart_value_enhanced("Option<Vec<String>>", &config);
    assert_eq!(a, b);
}

#[test]
fn test_synthesis_no_crosstalk() {
    let config = Config::default();
    let before = RustGenerator::generate_smart_value_enhanced("Option<bool>", &config);
    let _ = RustGenerator::generate_smart_value_enhanced("Vec<i32>", &config);
    let _ = RustGenerator::generate_smart_value_enhanced("Option<bool>", &config);
    let after = RustGenerator::generate_smart_value_enhanced("Option<bool>", &config);
    assert_eq!(before, after);
}

#[test]
fn test_optional_wrapper_values() {
    assert_eq!(RustGenerator::param_value("Option<i32>"), "Some(0)");
    assert_eq!(RustGenerator::param_value("Option<String>"), "Some(\"test\".to_string())");
    assert_eq!(RustGenerator::param_value("Option<Option<bool>>"), "Some(Some(false))");
    assert_eq!(RustGenerator::param_value("Option<Custom>"), "Some(Custom::default())");
}

#[test]
fn test_sequence_wrapper_values() {
    assert_eq!(RustGenerator::param_value("Vec<i32>"), "vec![0]");
    assert_eq!(RustGenerator::param_value("Vec<String>"), "vec![\"test\".to_string()]");
    assert_eq!(RustGenerator::param_value("Vec<Vec<u64>>"), "vec![vec![0]]");
}

#[test]
fn test_override_precedence() {
    let config = config_with_mapping("MyCustomType", "MyCustomType::new()");
    assert_eq!(
        RustGenerator::generate_smart_value_enhanced("MyCustomType", &config),
        "MyCustomType::new()"
    );
    // An override beats every built-in rule, even for a well-known type.
    let config = config_with_mapping("PathBuf", "special_path()");
    assert_eq!(
        RustGenerator::generate_smart_value_enhanced("PathBuf", &config),
        "special_path()"
    );
}

#[test]
fn test_result_scenario() {
    // The success/failure wrapper recurses into its first argument.
    assert_eq!(
        RustGenerator::param_value("Result<String, String>"),
        "Ok(\"test\".to_string())"
    );
    let config = Config::default();
    assert_eq!(
        RustGenerator::generate_assertions_enhanced("Result<String, String>", &config),
        "        assert!(result.is_ok(), \"Function should succeed\");"
    );
}

#[test]
fn test_param_value_primitives_and_fallbacks() {
    assert_eq!(RustGenerator::param_value("String"), "\"test\".to_string()");
    assert_eq!(RustGenerator::param_value("&str"), "\"test\"");
    assert_eq!(RustGenerator::param_value("usize"), "0");
    assert_eq!(RustGenerator::param_value(" i64 "), "0");
    assert_eq!(RustGenerator::param_value("bool"), "false");
    assert_eq!(RustGenerator::param_value("()"), "()");
    assert_eq!(RustGenerator::param_value("&u32"), "{ let tmp = 0; &tmp }");
    assert_eq!(RustGenerator::param_value("Config"), "Config::default()");
    assert_eq!(RustGenerator::param_value("weird"), "Default::default()");
}

#[test]
fn test_smart_value_well_known_types() {
    let mut no_overrides = Config::default();
    no_overrides.type_mappings = vec![];
    assert_eq!(
        RustGenerator::generate_smart_value_enhanced("PathBuf", &no_overrides),
        "std::path::PathBuf::from(\".\")"
    );
    assert_eq!(
        RustGenerator::generate_smart_value_enhanced("Uuid", &no_overrides),
        "uuid::Uuid::new_v4()"
    );
    assert_eq!(
        RustGenerator::generate_smart_value_enhanced("Url", &no_overrides),
        "url::Url::parse(\"https://example.com\").unwrap()"
    );
    assert_eq!(
        RustGenerator::generate_smart_value_enhanced("DateTime<Utc>", &no_overrides),
        "chrono::Utc::now()"
    );
    assert_eq!(
        RustGenerator::generate_smart_value_enhanced("lowercase", &no_overrides),
        "Default::default()"
    );
    assert_eq!(
        RustGenerator::generate_smart_value_enhanced("Config", &no_overrides),
        "Config::default()"
    );
    assert_eq!(
        RustGenerator::generate_smart_value_enhanced("String", &no_overrides),
        "\"test\".to_string()"
    );
}

#[test]
fn test_smart_param_value_special_case() {
    assert_eq!(
        RustGenerator::smart_param_value("GenerateArgs", "param_0"),
        "GenerateArgs { path: \"test_path\" }"
    );
    assert_eq!(RustGenerator::smart_param_value("u32", "param_0"), "0");
}

#[test]
fn test_assertions_enhanced_branches() {
    let config = Config::default();
    let a = |t: &str| RustGenerator::generate_assertions_enhanced(t, &config);
    assert_eq!(a("()"), "        // Function returns unit type - no assertion needed");
    assert_eq!(
        a("Option<u8>"),
        "        assert!(result.is_some(), \"Function should return Some value\");"
    );
    assert_eq!(
        a("Vec<u8>"),
        "        assert!(!result.is_empty(), \"Function should return non-empty vector\");"
    );
    assert_eq!(
        a("String"),
        "        assert!(!result.is_empty(), \"Function should return non-empty string\");"
    );
    assert_eq!(
        a("i32"),
        "        assert!(result >= 0, \"Function should return non-negative number\");"
    );
    assert_eq!(
        a("f64"),
        "        assert!(!result.is_nan(), \"Function should return valid float\");"
    );
    assert_eq!(
        a("bool"),
        "        // Boolean result - add specific assertion based on expected behavior"
    );
    assert_eq!(
        a("PathBuf"),
        "        assert!(result.exists(), \"Function should return existing path\");"
    );
    assert_eq!(
        a("Uuid"),
        "        assert!(!result.is_nil(), \"Function should return valid UUID\");"
    );
    assert_eq!(
        a("Url"),
        "        assert!(result.scheme() != \"\", \"Function should return valid URL\");"
    );
    assert_eq!(a("Whatever"), "        // add an appropriate assertion for type: Whatever");
}

#[test]
fn test_assertions_legacy_branches() {
    assert_eq!(RustGenerator::generate_assertions("Result<u8, u8>"), "        assert!(result.is_ok());");
    assert_eq!(RustGenerator::generate_assertions("Option<u8>"), "        assert!(result.is_some());");
    assert_eq!(
        RustGenerator::generate_assertions("f32"),
        "        assert!(result >= 0); // Basic check for numeric types"
    );
    assert_eq!(
        RustGenerator::generate_assertions("MyThing"),
        "        // add an appropriate assertion for MyThing"
    );
}

#[test]
fn test_module_path_from_file() {
    assert_eq!(RustGenerator::module_path_from_file("src/lib.rs"), "");
    assert_eq!(RustGenerator::module_path_from_file("./src/lib.rs"), "");
    assert_eq!(RustGenerator::module_path_from_file("src/core/models.rs"), "core::models");
    assert_eq!(RustGenerator::module_path_from_file("src/utils/mod.rs"), "utils");
    assert_eq!(RustGenerator::module_path_from_file("src\\core\\models.rs"), "core::models");
}

#[test]
fn test_test_file_name_from_module() {
    assert_eq!(RustGenerator::test_file_name_from_module(""), "integration_tests.rs");
    assert_eq!(RustGenerator::test_file_name_from_module("core::models"), "core_models_tests.rs");
}

fn greet_project(file: &str) -> ProjectInfo {
    ProjectInfo {
        language: "rust".to_string(),
        root: "/tmp/proj".to_string(),
        functions: vec![
            FunctionInfo {
                name: "greet".to_string(),
                params: vec![
                    ParamInfo { name: "name".to_string(), typ: TypeIntern::new("String") },
                ],
                returns: TypeIntern::new("String"),
                file: file.to_string(),
                is_async: false,
            },
        ],
    }
}

#[test]
fn test_orchestrator_single_function_scenario() {
    let project = greet_project("src/lib.rs");
    let config = Config::default();
    let files = RustGenerator::generate_from_project(&project, &config, "/tmp/proj");
    assert_eq!(files.len(), 1);
    assert_eq!(files[0].path, "/tmp/proj/tests/integration_tests.rs");
    let content = &files[0].content;
    assert!(content.contains("#[test] fn test_greet_integration()"));
    assert!(!content.contains("#[tokio::test]"));
    assert!(content.contains("let param_0 = \"test\".to_string();"));
    assert!(content.contains("let result = greet(param_0)"));
    assert!(content.contains("assert!(!result.is_empty(), \"Function should return non-empty string\");"));
}

#[test]
fn test_orchestrator_sequential_matches_parallel() {
    let mut functions = Vec::new();
    for i in 0..7 {
        functions.push(FunctionInfo {
            name: format!("func_{}", i),
            params: vec![],
            returns: TypeIntern::new("i32"),
            file: "src/many.rs".to_string(),
            is_async: false,
        });
    }
    let project = ProjectInfo {
        language: "rust".to_string(),
        root: ".".to_string(),
        functions,
    };
    let mut par = Config::default();
    par.parallel = true;
    par.parallel_chunk_size = 3;
    let mut seq = Config::default();
    seq.parallel = false;
    let a = RustGenerator::generate_from_project(&project, &par, ".");
    let b = RustGenerator::generate_from_project(&project, &seq, ".");
    assert_eq!(a.len(), 7);
    assert_eq!(a.len(), b.len());
    for i in 0..a.len() {
        assert_eq!(a[i].path, b[i].path);
        assert_eq!(a[i].content, b[i].content);
    }
}

#[test]
fn test_orchestrator_skip_filter() {
    let mut project = greet_project("src/lib.rs");
    project.functions.push(FunctionInfo {
        name: "test_helper".to_string(),
        params: vec![],
        returns: TypeIntern::new("()"),
        file: "src/lib.rs".to_string(),
        is_async: false,
    });
    let mut config = Config::default();
    config.skip_functions = vec!["test_".to_string()];
    let files = RustGenerator::generate_from_project(&project, &config, ".");
    assert_eq!(files.len(), 1);
    assert!(files[0].content.contains("greet"));
}

#[test]
fn test_async_function_rendering() {
    let project = ProjectInfo {
        language: "rust".to_string(),
        root: ".".to_string(),
        functions: vec![
            FunctionInfo {
                name: "fetch".to_string(),
                params: vec![],
                returns: TypeIntern::new("Result<String, Error>"),
                file: "src/net.rs".to_string(),
                is_async: true,
            },
        ],
    };
    let config = Config::default();
    let files = RustGenerator::generate_from_project(&project, &config, ".");
    assert_eq!(files.len(), 1);
    assert_eq!(files[0].path, "./tests/net_tests.rs");
    assert!(files[0].content.contains("#[tokio::test]"));
    assert!(files[0].content.contains(".await"));
    assert!(files[0].content.contains("let project_path = \"/tmp/test_project\";"));
}

#[test]
fn test_generate_legacy() {
    let project = greet_project("src/core/util.rs");
    let files = RustGenerator::generate(&project);
    assert_eq!(files.len(), 1);
    assert_eq!(files[0].path, "tests/core_util_tests.rs");
    assert!(files[0].content.starts_with("use test_project::*;\n\n"));
}

#[test]
fn test_render_test_legacy() {
    let project = greet_project("src/lib.rs");
    let rendered = RustGenerator::render_test(&project.functions[0], "");
    assert!(rendered.contains("fn test_greet_integration()"));
    assert!(rendered.contains("auto_test::generate_tests_for_project(\"/tmp/test_project\")"));
    assert!(rendered.contains("assert!(result.is_ok());"));
}

#[test]
fn test_generate_params_numbering() {
    let params = vec![
        ParamInfo { name: "a".to_string(), typ: TypeIntern::new("u32") },
        ParamInfo { name: "b".to_string(), typ: TypeIntern::new("bool") },
        ParamInfo { name: "c".to_string(), typ: TypeIntern::new("&str") },
    ];
    let config = Config::default();
    let (arrange, names) = RustGenerator::generate_params_enhanced(&params, &config);
    assert_eq!(names, "param_0, param_1, param_2");
    assert!(arrange.contains("        let param_0 = 0;\n"));
    assert!(arrange.contains("        let param_1 = false;\n"));
    assert!(arrange.contains("        let param_2 = \"test\";\n"));

    let (arrange_l, names_l) = RustGenerator::generate_params(&params);
    assert_eq!(names_l, "param_0, param_1, param_2");
    assert!(arrange_l.contains("        let param_0 = 0;\n"));
}
