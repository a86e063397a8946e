use auto_test::v_gen;
use auto_test::v_lang;

#[test]
fn v_gen_test_parse_simple_function() {
    let content = "fn add(a int, b int) int { return a + b }";
    let funcs = v_gen::VParser::parse_function_signatures(content);
    assert_eq!(funcs.len(), 1);
    assert_eq!(funcs[0].name, "add");
    assert_eq!(funcs[0].args.len(), 2);
    assert_eq!(funcs[0].return_type, Some("int".to_string()));
    assert!(!funcs[0].is_public);
}

#[test]
fn test_parse_public_function() {
    let content = "pub fn greet(name string) string { return 'Hello' }";
    let funcs = v_gen::VParser::parse_function_signatures(content);
    assert_eq!(funcs.len(), 1);
    assert!(funcs[0].is_public);
    assert_eq!(funcs[0].name, "greet");
}

#[test]
fn test_parse_method() {
    let content = "fn (u User) get_name() string { return u.name }";
    let funcs = v_gen::VParser::parse_function_signatures(content);
    assert_eq!(funcs.len(), 1);
    assert_eq!(funcs[0].receiver, Some("User".to_string()));
    assert_eq!(funcs[0].name, "get_name");
}

#[test]
fn test_generate_smart_assertions() {
    let func_int = v_gen::FunctionInfo {
        name: "add".to_string(),
        args: vec![],
        return_type: Some("int".to_string()),
        is_public: false,
        receiver: None,
    };
    let test_code = v_gen::VParser::generate_test(&func_int);
    assert!(test_code.contains("assert result == 0"));

    let func_bool = v_gen::FunctionInfo {
        name: "is_valid".to_string(),
        args: vec![],
        return_type: Some("bool".to_string()),
        is_public: false,
        receiver: None,
    };
    let test_code_bool = v_gen::VParser::generate_test(&func_bool);
    assert!(test_code_bool.contains("assert result == true"));
}

#[test]
fn test_parse_struct() {
    let content = "struct User {\n    name string\n    age int\n}";
    let structs = v_gen::VParser::parse_structs(content);
    assert_eq!(structs.len(), 1);
    assert_eq!(structs[0].name, "User");
    assert_eq!(structs[0].fields.len(), 2);
}

#[test]
fn v_lang_test_parse_simple_function() {
    let content = "fn add(a int, b int) int { return a + b }";
    let funcs = v_lang::VParser::parse_function_signatures(content);
    assert_eq!(funcs.len(), 1);
    assert_eq!(funcs[0].name, "add");
    assert_eq!(funcs[0].args, vec!["a int", "b int"]);
    assert_eq!(funcs[0].return_type, Some("int".to_string()));
}

#[test]
fn test_generate_test() {
    let func = v_lang::FunctionInfo {
        name: "add".to_string(),
        args: vec!["a int".to_string(), "b int".to_string()],
        return_type: Some("int".to_string()),
    };
    let test_code = v_lang::VParser::generate_test(&func);
    assert!(test_code.contains("fn test_add()"));
    assert!(test_code.contains("assert true"));
}

#[test]
fn test_v_gen_param_values() {
    assert_eq!(v_gen::VParser::generate_param_value("int", 0), "1");
    assert_eq!(v_gen::VParser::generate_param_value("u16", 2), "3");
    assert_eq!(v_gen::VParser::generate_param_value("f64", 1), "2.0");
    assert_eq!(v_gen::VParser::generate_param_value("bool", 0), "true");
    assert_eq!(v_gen::VParser::generate_param_value("string", 0), "'test'");
    assert_eq!(v_gen::VParser::generate_param_value("[]int", 0), "[]");
    assert_eq!(v_gen::VParser::generate_param_value("?int", 0), "none");
    assert_eq!(
        v_gen::VParser::generate_param_value("Custom", 0),
        "/* needs a value of type Custom */"
    );
}

#[test]
fn test_v_gen_function_call() {
    let func = v_gen::FunctionInfo {
        name: "add".to_string(),
        args: vec!["a int".to_string(), "b int".to_string()],
        return_type: Some("int".to_string()),
        is_public: false,
        receiver: None,
    };
    assert_eq!(v_gen::VParser::generate_function_call(&func), "add(1, 2)");

    let method = v_gen::FunctionInfo {
        name: "get_name".to_string(),
        args: vec![],
        return_type: Some("string".to_string()),
        is_public: false,
        receiver: Some("User".to_string()),
    };
    assert_eq!(v_gen::VParser::generate_function_call(&method), "instance.get_name()");
}

#[test]
fn test_v_gen_method_test_name() {
    let method = v_gen::FunctionInfo {
        name: "get_name".to_string(),
        args: vec![],
        return_type: None,
        is_public: false,
        receiver: Some("User".to_string()),
    };
    let code = v_gen::VParser::generate_test(&method);
    assert!(code.contains("fn test_user_get_name()"));
    assert!(code.contains("// Function returns nothing"));
}

#[test]
fn test_v_lang_two_functions() {
    let content = "fn one() int { return 1 }\nfn two(x int) { }\n";
    let funcs = v_lang::VParser::parse_function_signatures(content);
    assert_eq!(funcs.len(), 2);
    assert_eq!(funcs[0].name, "one");
    assert_eq!(funcs[1].name, "two");
    assert_eq!(funcs[1].args, vec!["x int"]);
}

#[test]
fn test_v_lang_build_test_file_content() {
    let funcs = vec![
        v_lang::FunctionInfo {
            name: "alpha".to_string(),
            args: vec![],
            return_type: None,
        },
        v_lang::FunctionInfo {
            name: "beta".to_string(),
            args: vec![],
            return_type: None,
        },
    ];
    let content = v_lang::VParser::build_test_file_content(&funcs);
    assert!(content.starts_with("module main\n\n"));
    assert!(content.contains("fn test_alpha()"));
    assert!(content.contains("fn test_beta()"));
    assert_eq!(v_lang::VParser::v_test_file_name("utils"), "utils_test.v");
}

#[test]
fn test_v_gen_unparsable_yields_nothing() {
    let funcs = v_gen::VParser::parse_function_signatures("just some prose, no signatures");
    assert_eq!(funcs.len(), 0);
    let structs = v_gen::VParser::parse_structs("no structs here");
    assert_eq!(structs.len(), 0);
}
