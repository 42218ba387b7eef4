//! Tests of the verified walker on hand-built trees, independent of the
//! external parser.

use flowblocks::{analyze_tree, AnalyzeError, BlockType, SyntaxNode};

fn node(kind: &str, text: &str, children: Vec<SyntaxNode>) -> SyntaxNode {
    SyntaxNode {
        kind: kind.to_string(),
        text: text.to_string(),
        start: 0,
        end: text.len(),
        children,
    }
}

fn leaf(kind: &str, text: &str) -> SyntaxNode {
    node(kind, text, Vec::new())
}

#[test]
fn empty_tree_yields_nothing() {
    let root = node("source_file", "", vec![]);
    let blocks = analyze_tree(&root).unwrap();
    assert!(blocks.is_empty());
}

#[test]
fn unmatched_else_is_fatal() {
    let root = node(
        "source_file",
        "",
        vec![node(
            "else_clause",
            "else {}",
            vec![leaf("else", "else"), node("block", "{}", vec![])],
        )],
    );
    let r = analyze_tree(&root);
    assert_eq!(r.unwrap_err(), AnalyzeError::UnmatchedElse(0, 7));
}

#[test]
fn duplicate_match_token_is_fatal() {
    let root = node(
        "source_file",
        "",
        vec![node(
            "match_expression",
            "match match x {}",
            vec![
                leaf("match", "match"),
                leaf("match", "match"),
                leaf("identifier", "x"),
                node("match_block", "{}", vec![]),
            ],
        )],
    );
    let r = analyze_tree(&root);
    assert_eq!(r.unwrap_err(), AnalyzeError::DuplicateMatchHeader(0, 16));
}

#[test]
fn stray_match_arm_is_fatal() {
    let root = node(
        "source_file",
        "",
        vec![node(
            "match_arm",
            "1 => x",
            vec![leaf("match_pattern", "1"), leaf("=>", "=>"), leaf("identifier", "x")],
        )],
    );
    let r = analyze_tree(&root);
    assert_eq!(r.unwrap_err(), AnalyzeError::MisplacedMatchArm(0, 6));
}

#[test]
fn generic_node_becomes_action() {
    let root = node("source_file", "", vec![leaf("let_declaration", "let a = 1;")]);
    let blocks = analyze_tree(&root).unwrap();
    assert_eq!(blocks.len(), 1);
    assert_eq!(blocks[0].kind, BlockType::Action);
    assert_eq!(blocks[0].text, "let a = 1;");
    assert_eq!((blocks[0].x, blocks[0].y), (0, 0));
}

#[test]
fn blank_generic_node_is_silent() {
    let root = node("source_file", "", vec![leaf("mystery", "  \n\t ")]);
    let blocks = analyze_tree(&root).unwrap();
    assert!(blocks.is_empty());
}

#[test]
fn unicode_blank_generic_node_is_silent() {
    // The suppression set is what str::trim removes: Unicode whitespace,
    // not only the ASCII kinds.
    let text = "\u{b}\u{c}\u{85}\u{a0}\u{1680}\u{2003}\u{2028}\u{2029}\u{202f}\u{205f}\u{3000}";
    assert!(text.trim().is_empty());
    let root = node("source_file", "", vec![leaf("mystery", text)]);
    let blocks = analyze_tree(&root).unwrap();
    assert!(blocks.is_empty());
}

#[test]
fn nearly_blank_generic_node_still_speaks() {
    let root = node("source_file", "", vec![leaf("mystery", " \u{c} q ")]);
    let blocks = analyze_tree(&root).unwrap();
    assert_eq!(blocks.len(), 1);
    assert_eq!(blocks[0].text, " \u{c} q ");
}

#[test]
fn comments_are_ignored() {
    let root = node("source_file", "", vec![leaf("line_comment", "// hello")]);
    let blocks = analyze_tree(&root).unwrap();
    assert!(blocks.is_empty());
}

#[test]
fn function_without_name_is_anonymous() {
    let root = node(
        "source_file",
        "",
        vec![node("function_item", "fn", vec![leaf("fn", "fn"), node("block", "{}", vec![])])],
    );
    let blocks = analyze_tree(&root).unwrap();
    assert_eq!(blocks[0].kind, BlockType::Start);
    assert_eq!(blocks[0].text, "anonymous");
}

#[test]
fn conversion_is_idempotent() {
    let build = || {
        node(
            "source_file",
            "",
            vec![node(
                "function_item",
                "fn f() {}",
                vec![
                    leaf("fn", "fn"),
                    leaf("identifier", "f"),
                    leaf("parameters", "()"),
                    node(
                        "block",
                        "{}",
                        vec![leaf("{", "{"), leaf("call_expression", "g()"), leaf("}", "}")],
                    ),
                ],
            )],
        )
    };
    let a = analyze_tree(&build()).unwrap();
    let b = analyze_tree(&build()).unwrap();
    assert_eq!(a.len(), b.len());
    for (x, y) in a.iter().zip(b.iter()) {
        assert_eq!(x.kind, y.kind);
        assert_eq!(x.text, y.text);
        assert_eq!(x.x, y.x);
        assert_eq!(x.y, y.y);
    }
}

#[test]
fn match_countdown_marks_last_arm() {
    let arm = |p: &str| {
        node(
            "match_arm",
            p,
            vec![leaf("match_pattern", p), leaf("=>", "=>"), leaf("identifier", "v")],
        )
    };
    let root = node(
        "source_file",
        "",
        vec![node(
            "match_expression",
            "match x { .. }",
            vec![
                leaf("match", "match"),
                leaf("identifier", "x"),
                node(
                    "match_block",
                    "{ .. }",
                    vec![leaf("{", "{"), arm("1"), arm("2"), leaf("}", "}")],
                ),
            ],
        )],
    );
    let blocks = analyze_tree(&root).unwrap();
    let marks: Vec<BlockType> = blocks.iter().map(|b| b.kind).collect();
    assert_eq!(
        marks,
        vec![BlockType::Condition, BlockType::Action, BlockType::EndMatchArm, BlockType::End]
    );
    assert_eq!(blocks[3].text, "match");
}

#[test]
fn nested_if_fans_out_further() {
    let plain_if = |cond: &str, body: SyntaxNode| {
        node(
            "if_expression",
            "if",
            vec![leaf("if", "if"), leaf("identifier", cond), body],
        )
    };
    let inner = plain_if("b", node("block", "{}", vec![]));
    let outer = plain_if("a", node("block", "{}", vec![leaf("{", "{"), inner, leaf("}", "}")]));
    let root = node("source_file", "", vec![outer]);
    let blocks = analyze_tree(&root).unwrap();
    assert_eq!(blocks.len(), 2);
    assert_eq!(blocks[0].text, "a");
    assert_eq!(blocks[1].text, "b");
    // The inner condition fans out twice as far from its own origin.
    assert_eq!(blocks[0].x, 0);
    assert_eq!(blocks[1].x, 100);
}
