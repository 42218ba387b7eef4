//! End-to-end tests through the real parser.

use flowblocks::{AnalyzeError, BlockType, Language, Rust, RustAnalyzer};

fn kinds_of(blocks: &[flowblocks::CodeBlock]) -> Vec<BlockType> {
    blocks.iter().map(|b| b.kind).collect()
}

#[test]
fn if_else_pair_sequence() {
    let src = "fn main() { if x < y { println!(\"a\"); } else { println!(\"b\"); } }";
    let blocks = RustAnalyzer::analyze(src.to_string()).unwrap();
    assert_eq!(
        kinds_of(&blocks),
        vec![
            BlockType::Start,
            BlockType::Condition,
            BlockType::Print,
            BlockType::Else,
            BlockType::Print,
            BlockType::End,
        ]
    );
    assert_eq!(blocks[0].text, "main");
    assert_eq!(blocks[1].text, "x < y");
    assert_eq!(blocks[2].text, "a");
    assert_eq!(blocks[4].text, "b");
    // The two prints sit on the same row, one fan-out to each side.
    assert_ne!(blocks[2].x, blocks[4].x);
    assert_eq!(blocks[2].y, blocks[4].y);
    assert_eq!(blocks[2].y - blocks[1].y, 100);
    assert_eq!(blocks[4].y - blocks[1].y, 100);
    // The trailing end lies strictly below both branches.
    assert!(blocks[5].y > blocks[2].y);
    assert!(blocks[5].y > blocks[4].y);
}

#[test]
fn if_else_exact_layout() {
    let src = "fn main() { if x < y { println!(\"a\"); } else { println!(\"b\"); } }";
    let blocks = RustAnalyzer::analyze(src.to_string()).unwrap();
    assert_eq!((blocks[0].x, blocks[0].y), (0, 0));
    assert_eq!((blocks[1].x, blocks[1].y), (0, 100));
    assert_eq!((blocks[2].x, blocks[2].y), (100, 200));
    assert_eq!((blocks[3].x, blocks[3].y), (-100, 100));
    assert_eq!((blocks[4].x, blocks[4].y), (-100, 200));
    // Convergence: one step below the deeper branch, at the origin column.
    assert_eq!((blocks[5].x, blocks[5].y), (0, 400));
}

#[test]
fn single_if_without_else() {
    let src = "fn main() { if x < y { println!(\"a\"); } }";
    let blocks = RustAnalyzer::analyze(src.to_string()).unwrap();
    assert_eq!(
        kinds_of(&blocks),
        vec![BlockType::Start, BlockType::Condition, BlockType::Print, BlockType::End]
    );
    // Exactly one condition and one end, and the end lies below the condition.
    assert!(blocks[3].y > blocks[1].y);
}

#[test]
fn else_if_chain_conditions() {
    let src = "fn main() { if a { x(); } else if b { y(); } else { z(); } }";
    let blocks = RustAnalyzer::analyze(src.to_string()).unwrap();
    let conditions: Vec<_> = blocks.iter().filter(|b| b.kind == BlockType::Condition).collect();
    assert_eq!(conditions.len(), 2);
    assert_eq!(conditions[0].text, "a");
    assert_eq!(conditions[1].text, "b");
    // One terminal convergence shared by all arms: exactly one End block.
    let ends: Vec<_> = blocks.iter().filter(|b| b.kind == BlockType::End).collect();
    assert_eq!(ends.len(), 1);
}

#[test]
fn match_three_arms() {
    let src = "fn main() { match x { 1 => a(), 2 => b(), _ => c() } }";
    let blocks = RustAnalyzer::analyze(src.to_string()).unwrap();
    assert_eq!(
        kinds_of(&blocks),
        vec![
            BlockType::Start,
            BlockType::Condition,
            BlockType::Action,
            BlockType::Action,
            BlockType::EndMatchArm,
            BlockType::End,
            BlockType::End,
        ]
    );
    assert_eq!(blocks[1].text, "match x");
    assert_eq!(blocks[2].text, "1");
    assert_eq!(blocks[3].text, "2");
    assert_eq!(blocks[4].text, "_");
    assert_eq!(blocks[5].text, "match");
    // Arm markers share one row and are evenly spaced.
    assert_eq!(blocks[2].y, blocks[3].y);
    assert_eq!(blocks[3].y, blocks[4].y);
    assert_eq!(blocks[3].x - blocks[2].x, blocks[4].x - blocks[3].x);
    assert_ne!(blocks[2].x, blocks[3].x);
}

#[test]
fn for_loop_back_edge_anchor() {
    let src = "fn main() { for i in 0..3 { println!(\"i = {}\", i); } }";
    let blocks = RustAnalyzer::analyze(src.to_string()).unwrap();
    assert_eq!(
        kinds_of(&blocks),
        vec![
            BlockType::Start,
            BlockType::Cycle,
            BlockType::Print,
            BlockType::End,
            BlockType::End,
        ]
    );
    assert_eq!(blocks[1].text, "for i in 0..3");
    // The loop's end records the cycle block's own coordinates.
    assert_eq!(blocks[3].x, blocks[1].x);
    assert_eq!(blocks[3].y, blocks[1].y);
    // An interpolated print keeps the full call text.
    assert_eq!(blocks[2].text, "println!(\"i = {}\", i)");
}

#[test]
fn while_loop_cycle() {
    let src = "fn main() { while n < 5 { step(); } }";
    let blocks = RustAnalyzer::analyze(src.to_string()).unwrap();
    let cycles: Vec<_> = blocks.iter().filter(|b| b.kind == BlockType::Cycle).collect();
    assert_eq!(cycles.len(), 1);
    assert_eq!(cycles[0].text, "while n < 5");
}

#[test]
fn return_sets_end() {
    let src = "fn main() { return x; }";
    let blocks = RustAnalyzer::analyze(src.to_string()).unwrap();
    assert_eq!(kinds_of(&blocks), vec![BlockType::Start, BlockType::End]);
    assert_eq!(blocks[1].text, "x");
}

#[test]
fn analysis_is_repeatable() {
    let src = "fn main() { if a { b(); } for i in c { d(); } }";
    let first = RustAnalyzer::analyze(src.to_string()).unwrap();
    let second = RustAnalyzer::analyze(src.to_string()).unwrap();
    assert_eq!(first.len(), second.len());
    for (a, b) in first.iter().zip(second.iter()) {
        assert_eq!(a.kind, b.kind);
        assert_eq!(a.text, b.text);
        assert_eq!(a.x, b.x);
        assert_eq!(a.y, b.y);
    }
}

#[test]
fn language_trait_analyzes() {
    let lang = Rust;
    assert_eq!(lang.get_name(), "Rust");
    let rows = lang.analyze_to_vec("fn main() { x(); }".to_string()).unwrap();
    assert_eq!(rows[0].kind, BlockType::Start);
    assert_eq!(rows[0].text, "main");
    assert_eq!(rows[1].kind, BlockType::Action);
    assert_eq!(rows[1].text, "x()");
}

#[test]
fn plain_action_for_statements() {
    let src = "fn main() { let q = 5; }";
    let blocks = RustAnalyzer::analyze(src.to_string()).unwrap();
    assert_eq!(
        kinds_of(&blocks),
        vec![BlockType::Start, BlockType::Action, BlockType::End]
    );
    assert_eq!(blocks[1].text, "let q = 5;");
}

#[test]
fn print_without_interpolation_keeps_literal() {
    let src = "fn main() { println!(\"hello\"); }";
    let blocks = RustAnalyzer::analyze(src.to_string()).unwrap();
    assert_eq!(blocks[1].kind, BlockType::Print);
    assert_eq!(blocks[1].text, "hello");
}

#[test]
fn parse_failure_reported() {
    // The parser accepts almost anything, but an analysis that never finds
    // a tree is reported as such; here exercise the error type instead on
    // a structurally hostile input that still parses: it must not panic.
    let r = RustAnalyzer::analyze(String::from("else { }"));
    match r {
        Ok(_) => {},
        Err(e) => {
            assert!(matches!(
                e,
                AnalyzeError::ParseFailed
                    | AnalyzeError::UnmatchedElse(_, _)
                    | AnalyzeError::DuplicateMatchHeader(_, _)
                    | AnalyzeError::MisplacedMatchArm(_, _)
                    | AnalyzeError::UnbalancedScope(_, _, _)
            ));
        },
    }
}
