use auto_test::analyzer;
use auto_test::analyzer::RawParam;
use auto_test::analyzer::RawSig;
use auto_test::analyzer::SourceFile;
use auto_test::config::Config;
use auto_test::models::FunctionInfo;
use auto_test::models::InternPool;
use auto_test::models::ProjectInfo;
use auto_test::models::TypeIntern;
use auto_test::strutil;

#[test]
fn test_visibility_filter_scenario() {
    // One public and one private function: with include_private unset,
    // exactly one descriptor comes out.
    let mut pool = InternPool::new();
    let config = Config::default();
    let content = "pub fn visible(x: u32) -> bool { x > 0 }\nfn hidden() {}\n";
    let funcs = analyzer::analyze_rust_source_filtered(content, "src/lib.rs", &config, &mut pool);
    assert_eq!(funcs.len(), 1);
    assert_eq!(funcs[0].name, "visible");

    let mut config_private = Config::default();
    config_private.include_private = true;
    let mut pool2 = InternPool::new();
    let funcs2 =
        analyzer::analyze_rust_source_filtered(content, "src/lib.rs", &config_private, &mut pool2);
    assert_eq!(funcs2.len(), 2);
}

#[test]
fn test_extracted_signature_details() {
    let mut pool = InternPool::new();
    let config = Config::default();
    let content = "pub fn greet(name: String, count: &u32) -> String { name }\n";
    let funcs = analyzer::analyze_rust_source_filtered(content, "src/lib.rs", &config, &mut pool);
    assert_eq!(funcs.len(), 1);
    let f = &funcs[0];
    assert_eq!(f.name, "greet");
    assert_eq!(f.file, "src/lib.rs");
    assert!(!f.is_async);
    assert_eq!(f.params.len(), 2);
    assert_eq!(f.params[0].name, "name");
    assert_eq!(f.params[0].typ.as_str(), "String");
    assert_eq!(f.params[1].name, "count");
    assert_eq!(f.params[1].typ.as_str(), "&u32");
    assert_eq!(f.returns.as_str(), "String");
}

#[test]
fn test_missing_return_type_sentinel() {
    let mut pool = InternPool::new();
    let config = Config::default();
    let content = "pub fn run() {}\npub async fn poll() {}\n";
    let funcs = analyzer::analyze_rust_source_filtered(content, "a.rs", &config, &mut pool);
    assert_eq!(funcs.len(), 2);
    assert_eq!(funcs[0].returns.as_str(), "()");
    assert!(!funcs[0].is_async);
    assert!(funcs[1].is_async);
}

#[test]
fn test_receiver_and_placeholder_sentinels() {
    // The raw-record path: a receiver parameter becomes the sentinel pair and
    // a missing pattern name becomes the placeholder.
    let mut pool = InternPool::new();
    let config = Config::default();
    let sigs = vec![RawSig {
        name: "method".to_string(),
        is_public: true,
        is_async: false,
        params: vec![
            RawParam { is_receiver: true, by_ref: false, name: None, typ: String::new() },
            RawParam {
                is_receiver: false,
                by_ref: false,
                name: None,
                typ: "(u8, u8)".to_string(),
            },
        ],
        ret: None,
    }];
    let funcs = analyzer::extract_functions_from_sigs(&sigs, "m.rs", &config, &mut pool);
    assert_eq!(funcs.len(), 1);
    assert_eq!(funcs[0].params[0].name, "self");
    assert_eq!(funcs[0].params[0].typ.as_str(), "Self");
    assert_eq!(funcs[0].params[1].name, "_");
    assert_eq!(funcs[0].params[1].typ.as_str(), "(u8, u8)");
    assert_eq!(funcs[0].returns.as_str(), "()");
}

#[test]
fn test_parse_failure_isolated() {
    // A file that fails to parse yields nothing and never prevents
    // extraction from its siblings.
    let mut pool = InternPool::new();
    let config = Config::default();
    let files = vec![
        SourceFile { path: "bad.rs".to_string(), content: "fn {{{ not rust".to_string() },
        SourceFile { path: "good.rs".to_string(), content: "pub fn hello() {}".to_string() },
    ];
    let project = analyzer::analyze_sources(&files, "/tmp/p", &config, &mut pool);
    assert_eq!(project.language, "rust");
    assert_eq!(project.root, "/tmp/p");
    assert_eq!(project.functions.len(), 1);
    assert_eq!(project.functions[0].name, "hello");
    assert_eq!(project.functions[0].file, "good.rs");
}

#[test]
fn test_unparsable_source_yields_nothing() {
    let mut pool = InternPool::new();
    let config = Config::default();
    let funcs =
        analyzer::analyze_rust_source_filtered("pub fn broken(", "x.rs", &config, &mut pool);
    assert_eq!(funcs.len(), 0);
}

#[test]
fn test_should_skip_file_standard_paths() {
    let config = Config::default();
    assert!(analyzer::is_standard_ignored_path("proj/target/debug/foo.rs"));
    assert!(analyzer::is_standard_ignored_path("proj/.git/config"));
    assert!(analyzer::is_standard_ignored_path("a/node_modules/b.rs"));
    assert!(analyzer::is_standard_ignored_path("x/build/y.rs"));
    assert!(analyzer::is_standard_ignored_path("x/dist/y.rs"));
    assert!(!analyzer::is_standard_ignored_path("src/main.rs"));
    assert!(analyzer::should_skip_file("proj/target/debug/foo.rs", &config));
}

#[test]
fn test_should_skip_file_glob_patterns() {
    let mut config = Config::default();
    config.skip_patterns = vec!["**/docs/**".to_string()];
    assert!(analyzer::should_skip_file("proj/docs/gen.rs", &config));
    assert!(!analyzer::should_skip_file("proj/src/gen.rs", &config));
    // An invalid pattern matches nothing and is simply ignored.
    config.skip_patterns = vec!["[".to_string()];
    assert!(!analyzer::should_skip_file("proj/src/gen.rs", &config));
}

#[test]
fn test_select_source_files() {
    let config = Config::default();
    let paths = vec![
        "proj/src/a.rs".to_string(),
        "proj/src/a.rs".to_string(),
        "proj/README.md".to_string(),
        "proj/target/gen.rs".to_string(),
        "proj/src/b.rs".to_string(),
    ];
    let selected = analyzer::select_source_files(&paths, &config);
    assert_eq!(selected, vec!["proj/src/a.rs".to_string(), "proj/src/b.rs".to_string()]);
}

#[test]
fn test_type_intern_equality() {
    let a = TypeIntern::new("String");
    let b = TypeIntern::new("String");
    let c = TypeIntern::new("i32");
    assert_eq!(a, b);
    assert!(a != c);
    assert_eq!(a.as_str(), "String");
}

#[test]
fn test_intern_pool_no_crosstalk() {
    // Interning the same string repeatedly never changes earlier entries.
    let mut pool = InternPool::new();
    let s = pool.intern("String");
    assert_eq!(s.as_str(), "String");
    assert_eq!(pool.entries.len(), 1);
    let i = pool.intern("i32");
    assert_eq!(i.as_str(), "i32");
    assert_eq!(pool.entries.len(), 2);
    let s2 = pool.intern("String");
    assert_eq!(s2.as_str(), "String");
    assert_eq!(pool.entries.len(), 2);
    assert_eq!(pool.entries[0], "String");
    assert_eq!(pool.entries[1], "i32");
}

#[test]
fn test_memory_estimate_and_stats() {
    let f = FunctionInfo {
        name: "ab".to_string(),
        params: vec![auto_test::models::ParamInfo {
            name: "x".to_string(),
            typ: TypeIntern::new("i32"),
        }],
        returns: TypeIntern::new("()"),
        file: "c.rs".to_string(),
        is_async: false,
    };
    // 2 (name) + 4 (file) + 1 + 3 (param) + 2 (return) = 12 characters.
    assert_eq!(f.memory_estimate(), 12);
    let p = ProjectInfo {
        language: "rust".to_string(),
        root: ".".to_string(),
        functions: vec![f],
    };
    let stats = p.memory_stats();
    assert_eq!(stats.total_functions, 1);
    assert_eq!(stats.total_params, 1);
    assert_eq!(stats.estimated_memory_mb, 0);
}

#[test]
fn test_strutil_basics() {
    assert!(strutil::str_eq("abc", "abc"));
    assert!(!strutil::str_eq("abc", "abd"));
    assert_eq!(strutil::trim("  hi\t\n"), "hi");
    assert!(strutil::starts_with("Option<T>", "Option<"));
    assert!(strutil::ends_with("Option<T>", ">"));
    assert!(strutil::contains("a/target/b", "/target/"));
    assert!(!strutil::contains("ab", "abc"));
    assert_eq!(strutil::usize_to_string(0), "0");
    assert_eq!(strutil::usize_to_string(9876), "9876");
    assert_eq!(strutil::replace_char("a\\b\\c", '\\', '/'), "a/b/c");
    assert_eq!(strutil::to_ascii_lower("UserName"), "username");
    assert_eq!(strutil::replace_str("a::b::c", "::", "_"), "a_b_c");
    assert_eq!(strutil::concat3("a", "b", "c"), "abc");
}
