use cmtk::analyzer::{results_to_registry, AnalysisResult, Analyzer};
use cmtk::config::{
    default_indent_width, default_line_width, default_source_vertical_list_threshold, Config,
    IndentStyle,
};
use cmtk::cst::SyntaxElement;
use cmtk::diff::{render_diff, Hunk, LineTag};
use cmtk::discovery::{
    cmake_files_in_listing, command_would_be_multiline, is_cmake_file,
    unscanned_multiline_commands,
};
use cmtk::formatter::Formatter;
use cmtk::lexer::tokenize;
use cmtk::pack::{is_misaligned_n_per_line, pack_values_exec};
use cmtk::parser::{parse_text, Parser};
use cmtk::schema::{list_type_from_name, FunctionSchema, ListType, SchemaRegistry};
use cmtk::syntax::{CmakeLanguage, SyntaxKind};

fn format_with(src: &str, config: Config) -> String {
    Formatter::new(config).format(&Parser::new(src).parse())
}

fn fmt(src: &str) -> String {
    format_with(src, Config::default())
}

fn registry(entries: Vec<(&str, FunctionSchema)>) -> SchemaRegistry {
    let mut r = SchemaRegistry::default();
    for (name, schema) in entries {
        r.insert(name.to_string(), schema);
    }
    r
}

fn with_options(options: &[&str]) -> FunctionSchema {
    FunctionSchema {
        options: options.iter().map(|s| s.to_string()).collect(),
        ..Default::default()
    }
}

/// Non-trivia tokens of a file, and its comments with trailing whitespace
/// removed.
fn tokens_and_comments(src: &str) -> (Vec<(SyntaxKind, String)>, Vec<String>) {
    let mut structural = Vec::new();
    let mut comments = Vec::new();
    for (kind, text) in tokenize(src) {
        match kind {
            SyntaxKind::WHITESPACE => {}
            SyntaxKind::COMMENT => comments.push(text.trim_end().to_string()),
            _ => structural.push((kind, text)),
        }
    }
    comments.sort();
    (structural, comments)
}

const SAMPLES: [&str; 8] = [
    "set(FOO bar)\n",
    "if (A AND (B OR C))\n  message(STATUS \"x\") # note\nendif ()\n",
    "target_link_libraries(mytarget PUBLIC libfoo libbar PRIVATE libbaz libquux libzzz libyyy libxxx libwww libvvv)\n",
    "# head\nfunction(f)\n  foreach(x IN ITEMS a b c)\n    list(APPEND out ${x})\n  endforeach()\nendfunction()\n",
    "install(TARGETS a b c EXPORT e RUNTIME COMPONENT rt LIBRARY COMPONENT lib NAMELINK_COMPONENT dev ARCHIVE COMPONENT dev)\n",
    "set(x [[bracket\nargument]] \"quoted\" ${y}) #[[block\ncomment]]\n",
    "add_custom_command(OUTPUT out.txt COMMAND tool --flag value > out.txt DEPENDS tool)\n",
    "my_unknown_command(FIRST_GROUP a b c SECOND_GROUP d e f THIRD_GROUP g h i j k l m n o p q r s t u v w x y z)\n",
];

// --- Lexing and parsing keep every character ---

#[test]
fn test_tokens_concatenate_to_source() {
    for src in SAMPLES {
        let joined: String = tokenize(src).into_iter().map(|(_, t)| t).collect();
        assert_eq!(joined, src);
    }
}

#[test]
fn test_tree_text_is_source() {
    for src in SAMPLES {
        assert_eq!(parse_text(src).text(), src);
    }
}

#[test]
fn test_unterminated_quote_and_stray_paren_are_kept() {
    let src = "a(\"open\n) ) b";
    assert_eq!(Parser::new(src).parse().text(), src);
}

// --- Formatting ---

#[test]
fn test_formatting_is_idempotent_on_samples() {
    for src in SAMPLES {
        let once = fmt(src);
        let twice = fmt(&once);
        assert_eq!(once, twice, "not a fixpoint for {src:?}");
    }
}

#[test]
fn test_formatting_keeps_tokens_and_comments() {
    for src in SAMPLES {
        let once = fmt(src);
        assert_eq!(tokens_and_comments(src), tokens_and_comments(&once), "for {src:?}");
        let has_error = tokenize(&once).iter().any(|(k, _)| *k == SyntaxKind::ERROR);
        assert!(!has_error, "formatted output has an error token: {once:?}");
    }
}

#[test]
fn test_blocks_are_reindented() {
    let src = "if(A)\nset(x 1)\nelse()\nset(x 2)\nendif()\n";
    assert_eq!(fmt(src), "if (A)\n    set(x 1)\nelse ()\n    set(x 2)\nendif ()\n");
}

#[test]
fn test_tab_indentation_of_blocks() {
    let config = Config {
        indent_style: IndentStyle::Tab,
        ..Config::default()
    };
    let src = "foreach(x a b)\nmessage(${x})\nendforeach()\n";
    assert_eq!(format_with(src, config), "foreach (x a b)\n\tmessage(${x})\nendforeach ()\n");
}

#[test]
fn test_trailing_spaces_of_blank_lines_are_dropped() {
    assert_eq!(fmt("set(a 1)   \n   \n  set(b 2)\n"), "set(a 1)\n\nset(b 2)\n");
}

#[test]
fn test_same_line_spacing_before_comment_is_kept() {
    assert_eq!(fmt("set(a 1)   # note\n"), "set(a 1)   # note\n");
}

#[test]
fn test_empty_file_formats_to_empty() {
    assert_eq!(fmt(""), "");
}

#[test]
fn test_redirect_operator_stays_with_its_target() {
    let schema = FunctionSchema {
        multi_value_keywords: vec!["COMMAND".to_string()],
        list_keyword_types: vec![("COMMAND".to_string(), ListType::CommandArgv)],
        ..Default::default()
    };
    let config = Config {
        line_width: 40,
        function_schemas: registry(vec![("run", schema)]),
        ..Config::default()
    };
    let src = "run(COMMAND tool --one --two --three >> log.txt)\n";
    let out = format_with(src, config);
    assert!(out.contains(">> log.txt"), "{out}");
}

#[test]
fn test_command_without_parens_is_written_as_is() {
    assert_eq!(fmt("@PACKAGE_INIT@\n"), "@PACKAGE_INIT@\n");
}

#[test]
fn test_head_comment_with_empty_body() {
    assert_eq!(fmt("foo(  # note\n)\n"), "foo(  # note\n)\n");
}

// --- Schemas and configuration ---

#[test]
fn test_merge_prefers_the_other_registry() {
    let base = registry(vec![("a", with_options(&["X"])), ("b", with_options(&["Y"]))]);
    let other = registry(vec![("b", with_options(&["Z"]))]);
    let merged = base.merge(other);
    assert_eq!(merged.get("a").unwrap().options, vec!["X"]);
    assert_eq!(merged.get("b").unwrap().options, vec!["Z"]);
    assert!(merged.get("c").is_none());
}

#[test]
fn test_merge_and_insert_keep_one_entry_per_name() {
    let base = registry(vec![("a", with_options(&["X"])), ("b", with_options(&["Y"]))]);
    let other = registry(vec![("b", with_options(&["Z"])), ("c", with_options(&["W"]))]);
    let mut merged = base.merge(other);
    assert_eq!(merged.functions.len(), 3);
    assert_eq!(merged.functions[1].0, "b");
    assert_eq!(merged.functions[1].1.options, vec!["Z"]);
    merged.insert("a".to_string(), with_options(&["V"]));
    assert_eq!(merged.functions.len(), 3);
    assert_eq!(merged.get("a").unwrap().options, vec!["V"]);
}

#[test]
fn test_later_entry_wins_within_a_registry() {
    let r = registry(vec![("f", with_options(&["OLD"])), ("f", with_options(&["NEW"]))]);
    assert_eq!(r.get("F").unwrap().options, vec!["NEW"]);
}

#[test]
fn test_long_and_non_ascii_names_are_lowercased() {
    let long = "a_very_long_function_name_that_is_certainly_longer_than_sixty_four_characters";
    let r = registry(vec![(long, with_options(&["L"])), ("ärger", with_options(&["U"]))]);
    assert!(r.get(&long.to_uppercase()).is_some());
    assert!(r.get("ÄRGER").is_some());
    assert!(r.get("ÄRGERN").is_none());
}

#[test]
fn test_list_type_names() {
    assert_eq!(list_type_from_name("packed", None), Ok(ListType::Packed));
    assert_eq!(list_type_from_name("path", None), Ok(ListType::Path));
    assert_eq!(list_type_from_name("command_argv", None), Ok(ListType::CommandArgv));
    assert_eq!(list_type_from_name("n_per_line", None), Ok(ListType::NPerLine { n: 1 }));
    assert_eq!(list_type_from_name("one_per_line", Some(3)), Ok(ListType::NPerLine { n: 3 }));
    assert_eq!(list_type_from_name("condition", None), Ok(ListType::Condition));
    assert_eq!(
        list_type_from_name("zigzag", None),
        Err("unknown list_type: zigzag".to_string())
    );
    assert_eq!(ListType::one_per_line(), ListType::NPerLine { n: 1 });
}

#[test]
fn test_schema_keyword_queries() {
    let schema = FunctionSchema {
        options: vec!["OPT".to_string()],
        one_value_keywords: vec!["ONE".to_string()],
        multi_value_keywords: vec!["MULTI".to_string()],
        path_keywords: vec!["FILES".to_string()],
        list_keyword_types: vec![("MULTI".to_string(), ListType::CommandArgv)],
        ..Default::default()
    };
    assert!(schema.is_option("OPT") && !schema.is_option("opt"));
    assert!(schema.is_one_value_keyword("ONE"));
    assert!(schema.is_multi_value_keyword("MULTI"));
    assert!(schema.is_path_keyword("FILES"));
    assert_eq!(schema.list_type("MULTI"), ListType::CommandArgv);
    assert_eq!(schema.list_type("FILES"), ListType::Path);
    assert_eq!(schema.list_type("OTHER"), ListType::Packed);
    assert!(schema.is_any_keyword("ONE") && !schema.is_any_keyword("FILES"));
}

#[test]
fn test_default_settings() {
    assert_eq!(default_indent_width(), 4);
    assert_eq!(default_line_width(), 100);
    assert_eq!(default_source_vertical_list_threshold(), 3);
    let c = Config::default();
    assert!(c.function_schemas.get("target_link_libraries").is_some());
}

#[test]
fn test_discover_prefers_rc_then_pyproject() {
    let rc = Config {
        line_width: 11,
        ..Config::default()
    };
    let py = Config {
        line_width: 22,
        ..Config::default()
    };
    assert_eq!(Config::discover(Some(rc), Some(py)).line_width, 11);
    let py = Config {
        line_width: 22,
        ..Config::default()
    };
    assert_eq!(Config::discover(None, Some(py)).line_width, 22);
    assert_eq!(Config::discover(None, None).line_width, 100);
}

#[test]
fn test_file_schemas_come_after_builtins() {
    let c = Config {
        function_schemas: registry(vec![("target_link_libraries", FunctionSchema::default())]),
        ..Config::default()
    };
    let merged = c.with_builtin_schemas();
    let schema = merged.function_schemas.get("target_link_libraries").unwrap();
    assert!(schema.multi_value_keywords.is_empty());
    assert!(merged.function_schemas.get("find_package").is_some());
}

// --- Kinds ---

#[test]
fn test_kind_numbers_round_trip() {
    let kinds = [
        SyntaxKind::WHITESPACE,
        SyntaxKind::COMMENT,
        SyntaxKind::BRACKET_ARGUMENT,
        SyntaxKind::L_PAREN,
        SyntaxKind::R_PAREN,
        SyntaxKind::QUOTED_ARGUMENT,
        SyntaxKind::UNQUOTED_ARGUMENT,
        SyntaxKind::ERROR,
        SyntaxKind::ROOT,
        SyntaxKind::COMMAND,
    ];
    for (i, k) in kinds.iter().enumerate() {
        assert_eq!(CmakeLanguage::kind_to_raw(*k), i as u16);
        assert_eq!(CmakeLanguage::kind_from_raw(i as u16), *k);
    }
}

// --- Schema discovery ---

fn analyze(src: &str) -> Vec<AnalysisResult> {
    Analyzer::analyze_file(&Parser::new(src).parse())
}

#[test]
fn test_function_name_is_lowercased() {
    let results = analyze("function(MY_Func)\n  cmake_parse_arguments(A \"X\" \"\" \"\" ${ARGN})\nendfunction()\n");
    assert_eq!(results.len(), 1);
    assert_eq!(results[0].name, "my_func");
}

#[test]
fn test_foreach_in_items_any_case_binds_loop_variable() {
    let src = "function(f)\n  foreach(k in items A B)\n    list(APPEND opts \"${k}_ON\")\n  endforeach()\n  cmake_parse_arguments(P \"${opts}\" \"\" \"\" ${ARGN})\nendfunction()\n";
    let results = analyze(src);
    assert_eq!(results.len(), 1);
    assert_eq!(results[0].schema.options, vec!["A_ON", "B_ON"]);
    assert!(results[0].is_definitive);
}

#[test]
fn test_other_foreach_bodies_are_skipped() {
    let src = "function(f)\n  set(o A)\n  foreach(k RANGE 3)\n    set(o B)\n  endforeach()\n  cmake_parse_arguments(P \"${o}\" \"\" \"\" ${ARGN})\nendfunction()\n";
    let results = analyze(src);
    assert_eq!(results[0].schema.options, vec!["A"]);
}

#[test]
fn test_interpolation_and_lists() {
    let src = "function(f)\n  set(base X;Y)\n  list(APPEND base Z)\n  cmake_parse_arguments(P \"${base};W\" \" one ; ; two \" \"${missing}\" ${ARGN})\nendfunction()\n";
    let results = analyze(src);
    assert_eq!(results[0].schema.options, vec!["X", "Y", "Z", "W"]);
    assert_eq!(results[0].schema.one_value_keywords, vec!["one", "two"]);
    assert!(results[0].schema.multi_value_keywords.is_empty());
    assert!(!results[0].is_definitive);
}

#[test]
fn test_unclosed_reference_is_not_definitive() {
    let results = analyze("macro(m)\n  cmake_parse_arguments(P \"A;${oops\" \"\" \"\")\nendmacro()\n");
    assert_eq!(results[0].schema.options, vec!["A", "${oops"]);
    assert!(!results[0].is_definitive);
}

#[test]
fn test_unclosed_function_is_ignored() {
    assert!(analyze("function(f)\n  cmake_parse_arguments(P A B C)\n").is_empty());
}

#[test]
fn test_too_few_arguments_yields_no_schema() {
    assert!(analyze("function(f)\n  cmake_parse_arguments(P A B)\nendfunction()\n").is_empty());
}

#[test]
fn test_registry_of_results_keeps_later_schema() {
    let src = "function(f)\n  cmake_parse_arguments(P \"A\" \"\" \"\")\nendfunction()\nfunction(F)\n  cmake_parse_arguments(P \"B\" \"\" \"\")\nendfunction()\n";
    let r = results_to_registry(analyze(src));
    assert_eq!(r.functions.len(), 1);
    assert_eq!(r.get("f").unwrap().options, vec!["B"]);
}

// --- Files and commands without schemas ---

#[test]
fn test_cmake_file_names() {
    assert!(is_cmake_file("CMakeLists.txt"));
    assert!(is_cmake_file("src/CMakeLists.txt"));
    assert!(is_cmake_file("cmake/Tools.cmake"));
    assert!(is_cmake_file("cmake/Config.cmake.in"));
    assert!(!is_cmake_file("src/main.cpp"));
    assert!(!is_cmake_file("CMakeLists.txt/readme"));
    assert!(!is_cmake_file("xCMakeLists.txt"));
}

#[test]
fn test_cmake_files_in_listing() {
    let listing = "a/CMakeLists.txt\0b/main.c\0c/x.cmake\0\0";
    assert_eq!(cmake_files_in_listing(listing), vec!["a/CMakeLists.txt", "c/x.cmake"]);
}

#[test]
fn test_multiline_commands_without_schema() {
    let config = Config {
        line_width: 20,
        ..Config::default()
    };
    let root = Parser::new("short(a)\nlong_command_name(arg1 arg2)\nset(x y # c\n)\nmy(a # c\n)\n").parse();
    let flagged = unscanned_multiline_commands(&root, &config);
    assert_eq!(flagged, vec!["long_command_name", "my"]);
    let first = root
        .children
        .iter()
        .find_map(|e| match e {
            SyntaxElement::Command(c) => Some(c),
            _ => None,
        })
        .unwrap();
    assert!(!command_would_be_multiline(first, &config));
}

// --- The diff report ---

#[test]
fn test_diff_report_of_a_reformatted_line() {
    let source = "set(  FOO   bar  )";
    let formatted = fmt(source);
    assert_eq!(formatted, "set(FOO bar)");
    let report = cmtk::diff::unified_diff_text(source, &formatted, "CMakeLists.txt");
    assert!(report.starts_with("--- CMakeLists.txt\n+++ CMakeLists.txt\n@@ "), "{report}");
    assert!(report.contains("\n-set(  FOO   bar  )\n"), "{report}");
    assert!(report.ends_with("\n+set(FOO bar)\n"), "{report}");
}

#[test]
fn test_diff_report_of_equal_texts_is_empty() {
    let text = "set(FOO bar)\n";
    assert_eq!(cmtk::diff::unified_diff_text(text, text, "f"), "");
}

#[test]
fn test_render_diff_marks_lines() {
    let hunks = vec![Hunk {
        header: "@@ -1 +1 @@".to_string(),
        lines: vec![
            (LineTag::Equal, "a\n".to_string()),
            (LineTag::Delete, "b\n".to_string()),
            (LineTag::Insert, "c\n".to_string()),
        ],
    }];
    assert_eq!(render_diff(&hunks, "x"), "--- x\n+++ x\n@@ -1 +1 @@\n a\n-b\n+c\n");
    assert_eq!(render_diff(&Vec::new(), "x"), "");
}

/// How many times each character other than a space, tab or line break
/// occurs in `s`.
fn char_counts(s: &str) -> std::collections::BTreeMap<char, usize> {
    let mut m = std::collections::BTreeMap::new();
    for ch in s.chars() {
        if !matches!(ch, ' ' | '\t' | '\n' | '\r') {
            *m.entry(ch).or_insert(0) += 1;
        }
    }
    m
}

/// `a` holds each character at most as often as `b`.
fn counts_within(a: &str, b: &str) -> bool {
    let (ca, cb) = (char_counts(a), char_counts(b));
    ca.iter().all(|(ch, n)| cb.get(ch).copied().unwrap_or(0) >= *n)
}

#[test]
fn test_formatting_keeps_every_character_of_commands_without_comments() {
    let sources = [
        "set(FOO bar)\n",
        "target_link_libraries(mytarget PUBLIC libfoo libbar PRIVATE libbaz libquux libzzz libyyy libxxx libwww libvvv)\n",
        "add_custom_command(OUTPUT out.txt COMMAND tool --flag value -o out.txt input.txt DEPENDS input.txt tool WORKING_DIRECTORY ${CMAKE_CURRENT_BINARY_DIR})\n",
        "if(A AND (B OR C) AND NOT DEFINED VERY_LONG_VARIABLE_NAME_NUMBER_ONE AND NOT DEFINED VERY_LONG_VARIABLE_NAME_TWO)\nendif()\n",
        "install(TARGETS a b c RUNTIME DESTINATION bin LIBRARY DESTINATION lib NAMELINK_SKIP ARCHIVE DESTINATION lib/static)\n",
        "# a comment between commands\nbare_word\nfoo  (x y)\n",
    ];
    for src in sources {
        let out = fmt(src);
        assert_eq!(char_counts(&out), char_counts(src), "{src:?} -> {out:?}");
    }
}

#[test]
fn test_formatting_never_adds_characters_and_keeps_arguments() {
    let src = "install(TARGETS t DESTINATION # where it goes\n  lib COMPONENT rt) # after\nmy_func(a # one\n b)\n";
    let out = fmt(src);
    assert!(counts_within(&out, src), "{out:?}");
    // Without its comments, the source's characters all stand in the output.
    let without_comments: String = src
        .lines()
        .map(|l| match l.find('#') {
            Some(i) => &l[..i],
            None => l,
        })
        .collect::<Vec<_>>()
        .join("\n");
    assert!(counts_within(&without_comments, &out), "{out:?}");
    for word in ["install", "TARGETS", "t", "DESTINATION", "lib", "COMPONENT", "rt", "my_func", "a", "b"] {
        assert!(out.contains(word));
    }
}

fn without_blanks(s: &str) -> String {
    s.chars().filter(|c| !matches!(c, ' ' | '\t' | '\n' | '\r')).collect()
}

#[test]
fn test_formatting_keeps_order_of_comment_free_commands() {
    let sources = [
        "set(FOO bar)\n",
        "target_link_libraries(mytarget PUBLIC libfoo libbar PRIVATE libbaz libquux libzzz libyyy libxxx libwww libvvv)\n",
        "add_custom_command(OUTPUT out.txt COMMAND tool --flag value -o out.txt input.txt > log.txt DEPENDS input.txt tool)\n",
        "if(A AND (B OR C) AND NOT DEFINED VERY_LONG_VARIABLE_NAME_NUMBER_ONE AND NOT DEFINED VERY_LONG_VARIABLE_NAME_TWO)\n  message(STATUS \"x y\")\nendif()\n",
        "install(TARGETS a b c RUNTIME DESTINATION bin LIBRARY DESTINATION lib NAMELINK_SKIP ARCHIVE DESTINATION lib/static)\n",
        "file(GLOB_RECURSE SOURCES CONFIGURE_DEPENDS ${CMAKE_CURRENT_SOURCE_DIR}/src/*.cpp ${CMAKE_CURRENT_SOURCE_DIR}/include/*.h)\n",
        "# top\nbare_word\nfoo  (x [[y z]] \"w\")\n",
    ];
    for src in sources {
        let out = fmt(src);
        assert_eq!(without_blanks(&out), without_blanks(src), "{src:?} -> {out:?}");
    }
}

#[test]
fn test_whitespace_between_commands_is_stable_after_one_pass() {
    for src in ["a()  \t\n\n   \nb()\n", "# c \t \n\t\n  x()\r\n  \r\n", "\n\n  \t", "  lone  "] {
        let once = fmt(src);
        let twice = fmt(&once);
        assert_eq!(once, twice, "{src:?}");
    }
}

#[test]
fn test_foreach_over_unresolved_items_is_not_definitive() {
    let src = "function(f)\n  set(OPTS A)\n  foreach(x IN ITEMS B ${EXT})\n    list(APPEND OPTS ${x})\n  endforeach()\n  cmake_parse_arguments(P \"${OPTS}\" \"\" \"\" ${ARGN})\nendfunction()\n";
    let results = analyze(src);
    assert_eq!(results[0].schema.options, vec!["A", "B"]);
    assert!(!results[0].is_definitive);
    let resolved = "function(f)\n  set(OPTS A)\n  foreach(x IN ITEMS B C)\n    list(APPEND OPTS ${x})\n  endforeach()\n  cmake_parse_arguments(P \"${OPTS}\" \"\" \"\" ${ARGN})\nendfunction()\n";
    let results = analyze(resolved);
    assert_eq!(results[0].schema.options, vec!["A", "B", "C"]);
    assert!(results[0].is_definitive);
}

#[test]
fn test_foreach_over_only_unresolved_items_is_not_definitive() {
    let src = "function(f)\n  set(OPTS A)\n  foreach(x IN ITEMS ${EXT})\n    list(APPEND OPTS ${x})\n  endforeach()\n  cmake_parse_arguments(P \"${OPTS}\" \"\" \"\" ${ARGN})\nendfunction()\n";
    let results = analyze(src);
    assert_eq!(results[0].schema.options, vec!["A"]);
    assert!(!results[0].is_definitive);
    let set_in_body = "function(f)\n  foreach(x IN ITEMS ${EXT})\n    set(ONE X)\n  endforeach()\n  cmake_parse_arguments(P \"\" \"${ONE}\" \"\" ${ARGN})\nendfunction()\n";
    let results = analyze(set_in_body);
    assert!(results[0].schema.one_value_keywords.is_empty());
    assert!(!results[0].is_definitive);
}

fn layout_line(indent: usize, text: &str, has_comment: bool) -> cmtk::pack::LayoutLine {
    cmtk::pack::LayoutLine { indent, text: text.to_string(), has_comment }
}

#[test]
fn test_comment_after_one_value_keyword_is_kept() {
    let s = FunctionSchema { one_value_keywords: vec!["KEY".into()], ..Default::default() };
    let a = |t: &str, l: usize| cmtk::pack::ArgItem {
        text: t.into(),
        is_comment: false,
        is_trailing_comment: false,
        source_line: Some(l),
    };
    let c = cmtk::pack::ArgItem {
        text: "# c".into(),
        is_comment: true,
        is_trailing_comment: true,
        source_line: None,
    };
    let args = vec![a("KEY", 0), c, a("b", 1)];
    let r = cmtk::layout::layout_schema_args_exec(3, &args, &s, false, 76, 76, 0);
    let texts: Vec<(usize, String, bool)> = r.iter().map(|l| (l.indent, l.text.clone(), l.has_comment)).collect();
    let expected = vec![layout_line(0, "KEY  # c", true), layout_line(0, "b", false)];
    let expected: Vec<(usize, String, bool)> = expected.iter().map(|l| (l.indent, l.text.clone(), l.has_comment)).collect();
    assert_eq!(texts, expected);
    let out = fmt("project(Foo VERSION # c\n1.0)\n");
    assert!(out.contains("# c"), "{out:?}");
    assert!(out.contains("1.0"), "{out:?}");
}

#[test]
fn test_comments_inside_commands_keep_their_characters() {
    let sources = [
        "install(TARGETS t DESTINATION # where it goes\n  lib COMPONENT rt) # after\nmy_func(a # one\n b)\n",
        "find_package(Halide_LLVM 21...99 REQUIRED # minimum-only constraint\n  COMPONENTS WebAssembly X86)\n",
        "set(x # head\n  a b c)\n",
    ];
    for src in sources {
        let out = fmt(src);
        assert_eq!(char_counts(&out), char_counts(src), "{src:?} -> {out:?}");
    }
}

#[test]
fn test_misaligned_n_per_line_is_reported_and_packed() {
    assert!(is_misaligned_n_per_line(ListType::NPerLine { n: 2 }, 3));
    assert!(!is_misaligned_n_per_line(ListType::NPerLine { n: 2 }, 4));
    assert!(!is_misaligned_n_per_line(ListType::NPerLine { n: 1 }, 3));
    assert!(!is_misaligned_n_per_line(ListType::Packed, 3));
    let words = |v: &[&str]| v.iter().map(|s| s.to_string()).collect::<Vec<String>>();
    let r = pack_values_exec(0, &words(&["PROPERTIES"]), &words(&["A", "1", "B"]), 76, ListType::NPerLine { n: 2 });
    assert_eq!(r.len(), 1);
    assert_eq!(r[0].text, "PROPERTIES A 1 B");
}

#[test]
fn test_builtin_schema_names_are_lowercase_and_reachable() {
    let r = SchemaRegistry::with_builtins();
    for (name, _) in r.functions.iter() {
        assert_eq!(name, &name.to_lowercase());
        assert!(r.get(&name.to_uppercase()).is_some(), "{name}");
    }
}

#[test]
fn test_only_definitions_give_schemas() {
    let src = "cmake_parse_arguments(P \"A\" \"\" \"\" ${ARGN})\nfunction(Outer)\n  function(inner)\n    cmake_parse_arguments(Q \"B\" \"\" \"\" ${ARGN})\n  endfunction()\n  cmake_parse_arguments(P \"C\" \"\" \"\" ${ARGN})\nendfunction()\n";
    let results = analyze(src);
    let names: Vec<String> = results.iter().map(|r| r.name.clone()).collect();
    assert_eq!(names, vec!["outer", "inner"]);
    // The first call in a body counts, a nested definition's included.
    assert_eq!(results[0].schema.options, vec!["B"]);
    assert_eq!(results[1].schema.options, vec!["B"]);
}

#[test]
fn test_generic_keyword_words() {
    for (w, k) in [("URL", true), ("ON", false), ("TRUE", false), ("EMCC_FLAGS=-O2", false), ("GIT_TAG2", true), ("Url", false)] {
        assert_eq!(cmtk::layout::is_generic_keyword_exec(w), k, "{w}");
    }
}

#[test]
fn test_misaligned_n_per_line_lists_of_a_file_are_reported() {
    let src = "set_target_properties(t PROPERTIES A 1 B)\nset_target_properties(u PROPERTIES A 1 # c\n B 2)\nmessage(x)\n";
    let root = Parser::new(src).parse();
    let found = Formatter::new(Config::default()).misaligned_lists(&root);
    assert_eq!(found, vec![("set_target_properties".to_string(), "PROPERTIES".to_string(), 3)]);
}

#[test]
fn test_no_misaligned_lists_without_schema_or_with_whole_groups() {
    let src = "foo(PROPERTIES A 1 B)\nset_target_properties(t PROPERTIES A 1 B 2)\n";
    let root = Parser::new(src).parse();
    assert!(Formatter::new(Config::default()).misaligned_lists(&root).is_empty());
}

#[test]
fn test_builtin_schema_names_are_distinct() {
    let r = SchemaRegistry::with_builtins();
    let mut names: Vec<&String> = r.functions.iter().map(|(n, _)| n).collect();
    names.sort();
    names.dedup();
    assert_eq!(names.len(), r.functions.len());
}

#[test]
fn test_packed_list_fills_each_line_before_breaking() {
    let words = |v: &[&str]| v.iter().map(|s| s.to_string()).collect::<Vec<String>>();
    let r = pack_values_exec(0, &words(&["SOURCES"]), &words(&["aaaa", "bbbb", "cccc"]), 12, ListType::Packed);
    let got: Vec<(usize, String)> = r.iter().map(|l| (l.indent, l.text.clone())).collect();
    assert_eq!(got, vec![(0, "SOURCES".to_string()), (1, "aaaa bbbb".to_string()), (1, "cccc".to_string())]);
    assert!("aaaa bbbb".len() + 1 + "cccc".len() > 12);
    let one = pack_values_exec(0, &words(&["SOURCES"]), &words(&["a", "b"]), 12, ListType::Packed);
    assert_eq!(one.len(), 1);
    assert_eq!(one[0].text, "SOURCES a b");
}

#[test]
fn test_comment_in_sub_parser_keeps_closing_paren_off_the_comment_line() {
    for src in [
        "set(V CACHE BOOL # c\n)\n",
        "set(V ON CACHE BOOL \"d\" # c\n)\n",
        "set(V CACHE # c\n)\n",
        "install(TARGETS t EXPORT e # c\n)\n",
    ] {
        let out = fmt(src);
        for line in out.lines() {
            if let Some(pos) = line.find('#') {
                assert!(!line[pos..].contains(')'), "{src:?} -> {out:?}");
            }
        }
        assert!(out.contains('\n'), "{src:?} -> {out:?}");
    }
}

#[test]
fn test_pyproject_section_is_the_tool_cmtk_table() {
    let text = "[project]\nname = \"x\"\n[tool.cmtk]\nline_width = 80\nindent_style = \"tab\"\n";
    let section = cmtk::cmtkrc::pyproject_cmtk_section(text).unwrap();
    let doc: toml::Value = toml::from_str(&section).unwrap();
    assert_eq!(doc["line_width"].as_integer(), Some(80));
    assert_eq!(doc["indent_style"].as_str(), Some("tab"));
    assert!(doc.get("name").is_none());
}

#[test]
fn test_pyproject_without_tool_cmtk_gives_an_empty_table() {
    for text in ["[project]\nname = \"x\"\n", "tool = 3\n", "[tool.other]\na = 1\n"] {
        let section = cmtk::cmtkrc::pyproject_cmtk_section(text).unwrap();
        let doc: toml::Value = toml::from_str(&section).unwrap();
        assert!(doc.as_table().unwrap().is_empty(), "{text:?}");
    }
    assert!(cmtk::cmtkrc::pyproject_cmtk_section("[tool").is_none());
}

#[test]
fn test_discover_merges_builtins_into_the_file_settings() {
    let mut own = SchemaRegistry::default();
    own.insert("my_func".to_string(), with_options(&["X"]));
    let rc = Config { line_width: 60, function_schemas: own, ..Config::default() };
    let r = Config::discover(Some(rc), None);
    assert_eq!(r.line_width, 60);
    assert!(r.function_schemas.get("my_func").is_some());
    assert!(r.function_schemas.get("project").is_some());
    let d = Config::discover(None, None);
    assert_eq!(d.line_width, 100);
}
