use cmtk::analyzer::Analyzer;

fn parse_and_analyze(src: &str) -> Vec<cmtk::analyzer::AnalysisResult> {
    let parser = cmtk::parser::Parser::new(src);
    let root = parser.parse();
    Analyzer::analyze_file(&root)
}

// T1: Standard form
#[test]
fn test_standard_form() {
    let src = r#"
function(my_func)
  cmake_parse_arguments(ARG "A;B" "C" "D;E" ${ARGN})
endfunction()
"#;
    let results = parse_and_analyze(src);
    assert_eq!(results.len(), 1);
    let r = &results[0];
    assert_eq!(r.name, "my_func");
    assert!(r.is_definitive);
    let mut opts = r.schema.options.clone();
    opts.sort();
    assert_eq!(opts, vec!["A", "B"]);
    assert_eq!(r.schema.one_value_keywords, vec!["C"]);
    let mut mv = r.schema.multi_value_keywords.clone();
    mv.sort();
    assert_eq!(mv, vec!["D", "E"]);
}

// T2: PARSE_ARGV form
#[test]
fn test_parse_argv_form() {
    let src = r#"
function(my_func)
  cmake_parse_arguments(PARSE_ARGV 0 ARG "A" "B" "C")
endfunction()
"#;
    let results = parse_and_analyze(src);
    assert_eq!(results.len(), 1);
    let r = &results[0];
    assert_eq!(r.name, "my_func");
    assert!(r.is_definitive);
    assert_eq!(r.schema.options, vec!["A"]);
    assert_eq!(r.schema.one_value_keywords, vec!["B"]);
    assert_eq!(r.schema.multi_value_keywords, vec!["C"]);
}

// T3: Variable resolution via set()
#[test]
fn test_variable_resolution() {
    let src = r#"
function(my_func)
  set(MY_OPTS "X;Y")
  cmake_parse_arguments(ARG "${MY_OPTS}" "" "")
endfunction()
"#;
    let results = parse_and_analyze(src);
    assert_eq!(results.len(), 1);
    let r = &results[0];
    assert!(r.is_definitive);
    let mut opts = r.schema.options.clone();
    opts.sort();
    assert_eq!(opts, vec!["X", "Y"]);
    assert!(r.schema.one_value_keywords.is_empty());
    assert!(r.schema.multi_value_keywords.is_empty());
}

// T4: Unresolvable variable ref → is_definitive: false
#[test]
fn test_unresolvable_ref() {
    let src = r#"
function(my_func)
  cmake_parse_arguments(ARG ${EXTERNAL_OPTS} "" "")
endfunction()
"#;
    let results = parse_and_analyze(src);
    assert_eq!(results.len(), 1);
    let r = &results[0];
    assert!(!r.is_definitive);
}

// T5: Empty string args → empty lists
#[test]
fn test_empty_args() {
    let src = r#"
function(my_func)
  cmake_parse_arguments(ARG "" "" "SRCS;DEPS")
endfunction()
"#;
    let results = parse_and_analyze(src);
    assert_eq!(results.len(), 1);
    let r = &results[0];
    assert!(r.is_definitive);
    assert!(r.schema.options.is_empty());
    assert!(r.schema.one_value_keywords.is_empty());
    let mut mv = r.schema.multi_value_keywords.clone();
    mv.sort();
    assert_eq!(mv, vec!["DEPS", "SRCS"]);
}

// T6: Macro support
#[test]
fn test_macro_support() {
    let src = r#"
macro(my_macro)
  cmake_parse_arguments(ARG "OPT" "KEY" "LIST" ${ARGN})
endmacro()
"#;
    let results = parse_and_analyze(src);
    assert_eq!(results.len(), 1);
    let r = &results[0];
    assert_eq!(r.name, "my_macro");
    assert_eq!(r.schema.options, vec!["OPT"]);
    assert_eq!(r.schema.one_value_keywords, vec!["KEY"]);
    assert_eq!(r.schema.multi_value_keywords, vec!["LIST"]);
}

// T7: Nested macro in function body — both captured separately
#[test]
fn test_nested_macro_in_function() {
    let src = r#"
function(outer_func)
  cmake_parse_arguments(ARG "OPT" "" "" ${ARGN})
  macro(inner_macro)
    cmake_parse_arguments(M "X" "Y" "" ${ARGN})
  endmacro()
endfunction()
"#;
    let results = parse_and_analyze(src);
    assert_eq!(results.len(), 2);
    let names: Vec<&str> = results.iter().map(|r| r.name.as_str()).collect();
    assert!(names.contains(&"outer_func"));
    assert!(names.contains(&"inner_macro"));
}

// T8: No function/macro → empty results
#[test]
fn test_no_functions() {
    let src = r#"
cmake_minimum_required(VERSION 3.20)
project(MyProject)
"#;
    let results = parse_and_analyze(src);
    assert!(results.is_empty());
}

// T9: File-scope cmake_parse_arguments (not inside function) → ignored
#[test]
fn test_file_scope_ignored() {
    let src = r#"
cmake_parse_arguments(ARG "A" "B" "C" ${ARGN})
"#;
    let results = parse_and_analyze(src);
    assert!(results.is_empty());
}

// T10: Multiple functions in one file → all captured
#[test]
fn test_multiple_functions() {
    let src = r#"
function(func_one)
  cmake_parse_arguments(ARG "OPT1" "" "" ${ARGN})
endfunction()

function(func_two)
  cmake_parse_arguments(ARG "" "KEY1" "" ${ARGN})
endfunction()
"#;
    let results = parse_and_analyze(src);
    assert_eq!(results.len(), 2);
    let names: Vec<&str> = results.iter().map(|r| r.name.as_str()).collect();
    assert!(names.contains(&"func_one"));
    assert!(names.contains(&"func_two"));
}

// T14: Multi-line cmake_parse_arguments call is parsed correctly
#[test]
fn test_multiline_cmake_parse_arguments() {
    let src = r#"
function(my_func)
  cmake_parse_arguments(
    ARG
    "A;B"
    "C"
    "D;E"
    ${ARGN}
  )
endfunction()
"#;
    let results = parse_and_analyze(src);
    assert_eq!(results.len(), 1, "should find one schema");
    let r = &results[0];
    assert_eq!(r.name, "my_func");
    assert!(r.is_definitive);
    let mut opts = r.schema.options.clone();
    opts.sort();
    assert_eq!(opts, vec!["A", "B"]);
    assert_eq!(r.schema.one_value_keywords, vec!["C"]);
    let mut mv = r.schema.multi_value_keywords.clone();
    mv.sort();
    assert_eq!(mv, vec!["D", "E"]);
}

// T12: scan --write keeps the existing configuration
#[test]
fn test_scan_write_preserves_existing_config() {
    let existing = "indent_style = \"tab\"\nindent_width = 2\n";
    let src = r#"
function(my_func)
  cmake_parse_arguments(ARG "OPT" "KEY" "LIST" ${ARGN})
endfunction()
"#;
    let registry = cmtk::analyzer::results_to_registry(parse_and_analyze(src));
    let content = cmtk::cmtkrc::merge_schemas_into_config(existing, &registry).unwrap();
    assert!(content.contains("indent_style"), "should preserve indent_style; got: {}", content);
    assert!(content.contains("my_func") || content.contains("my_func"), "should contain MY_FUNC; got: {}", content);
}

#[test]
fn test_merged_config_sets_schema_lists_and_keeps_other_keys() {
    let existing = "indent_width = 2\n[function_schemas.old]\noptions = [\"X\"]\n";
    let src = "function(my_func)\n  cmake_parse_arguments(ARG \"OPT\" \"KEY\" \"LIST\" ${ARGN})\nendfunction()\n";
    let registry = cmtk::analyzer::results_to_registry(parse_and_analyze(src));
    let content = cmtk::cmtkrc::merge_schemas_into_config(existing, &registry).unwrap();
    let doc: toml::Value = toml::from_str(&content).unwrap();
    assert_eq!(doc["indent_width"].as_integer(), Some(2));
    assert_eq!(doc["function_schemas"]["old"]["options"][0].as_str(), Some("X"));
    let entry = &doc["function_schemas"]["my_func"];
    assert_eq!(entry["options"][0].as_str(), Some("OPT"));
    assert_eq!(entry["one_value_keywords"][0].as_str(), Some("KEY"));
    assert_eq!(entry["multi_value_keywords"][0].as_str(), Some("LIST"));
}

#[test]
fn test_merged_config_from_unparsable_text_starts_empty() {
    let registry = cmtk::schema::SchemaRegistry::default();
    let content = cmtk::cmtkrc::merge_schemas_into_config("not = [valid", &registry).unwrap();
    let doc: toml::Value = toml::from_str(&content).unwrap();
    assert!(doc["function_schemas"].as_table().unwrap().is_empty());
    assert_eq!(doc.as_table().unwrap().len(), 1);
}

#[test]
fn test_merged_config_refuses_non_table_schemas() {
    let registry = cmtk::schema::SchemaRegistry::default();
    let r = cmtk::cmtkrc::merge_schemas_into_config("function_schemas = 3\n", &registry);
    assert_eq!(r, Err(cmtk::cmtkrc::MergeError::SchemasNotTable));
}
