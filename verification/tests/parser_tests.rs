use cmtk::cst::{CommandNode, SyntaxElement};
use cmtk::parser::Parser;
use cmtk::syntax::SyntaxKind;

fn command_nodes(source: &str) -> Vec<CommandNode> {
    let root = Parser::new(source).parse();
    root.children
        .into_iter()
        .filter_map(|e| match e {
            SyntaxElement::Command(c) => Some(c),
            SyntaxElement::Token(_) => None,
        })
        .collect()
}

#[test]
fn test_bare_word_command_separation() {
    let source = "@PACKAGE_INIT@

macro(foo)";
    let command_nodes = command_nodes(source);

    assert_eq!(command_nodes.len(), 2);

    // Verify first command
    let cmd1 = &command_nodes[0];
    let name1 = cmd1.tokens.first().unwrap();
    assert_eq!(name1.text, "@PACKAGE_INIT@");

    // Verify second command
    let cmd2 = &command_nodes[1];
    let name2 = cmd2.tokens.first().unwrap();
    assert_eq!(name2.text, "macro");
}

#[test]
fn test_nested_parentheses_do_not_end_command() {
    let source = "if (HANNK_BUILD_TFLITE AND (Halide_TARGET MATCHES \"wasm\"))\nmessage(FATAL_ERROR \"bad\")\nendif ()\n";
    let command_nodes = command_nodes(source);

    assert_eq!(command_nodes.len(), 3);
    assert_eq!(
        command_nodes[0].text(),
        "if (HANNK_BUILD_TFLITE AND (Halide_TARGET MATCHES \"wasm\"))"
    );
}

#[test]
fn test_parse_text_reconstructs_source() {
    let sources = [
        "",
        "project(demo)\n",
        "# comment only\n\n",
        "if (A AND (B OR C))\n  message(STATUS \"x\") # trailing\nendif ()\n",
        "set(x [[bracket\nargument]] \"quoted\\\"\" ${y})",
        "unterminated(\"quote",
        "stray ) paren ( and [=[ open bracket",
        "#[[block\ncomment]] cmd(a\n b\r\n c)\t\n",
    ];
    for src in sources {
        let root = cmtk::parser::parse_text(src);
        assert_eq!(root.text(), src);
    }
}

#[test]
fn test_commands_hold_their_tokens() {
    let root = Parser::new("a(b) # c\nd()").parse();
    let kinds: Vec<bool> = root
        .children
        .iter()
        .map(|e| matches!(e, SyntaxElement::Command(_)))
        .collect();
    assert_eq!(kinds, vec![true, false, false, false, true]);
    if let SyntaxElement::Command(c) = &root.children[0] {
        let ks: Vec<SyntaxKind> = c.tokens.iter().map(|t| t.kind).collect();
        assert_eq!(
            ks,
            vec![
                SyntaxKind::UNQUOTED_ARGUMENT,
                SyntaxKind::L_PAREN,
                SyntaxKind::UNQUOTED_ARGUMENT,
                SyntaxKind::R_PAREN
            ]
        );
    }
}
