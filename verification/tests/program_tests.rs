//! Tests over whole program sources, covering chains, returns, loops and
//! mixed construct nesting.

use flowblocks::{BlockType, RustAnalyzer};

fn analyze(src: &str) -> Vec<flowblocks::CodeBlock> {
    RustAnalyzer::analyze(src.to_string()).unwrap()
}

#[test]
fn chain_of_three_conditions_converges_once() {
    let src = "fn main() { if a { p(); } else if b { q(); } else if c { r(); } else { s(); } }";
    let blocks = analyze(src);
    let conditions = blocks.iter().filter(|b| b.kind == BlockType::Condition).count();
    let ends = blocks.iter().filter(|b| b.kind == BlockType::End).count();
    let elses = blocks.iter().filter(|b| b.kind == BlockType::Else).count();
    assert_eq!(conditions, 3);
    assert_eq!(elses, 3);
    // One terminal convergence shared by all arms: the function's end alone.
    assert_eq!(ends, 1);
}

#[test]
fn top_level_return_suppresses_function_end() {
    let src = "fn main() { return 7; }";
    let blocks = analyze(src);
    // The return's own end block stands in for the function's.
    let ends: Vec<_> = blocks.iter().filter(|b| b.kind == BlockType::End).collect();
    assert_eq!(ends.len(), 1);
    assert_eq!(ends[0].text, "7");
}

#[test]
fn return_inside_branch_keeps_function_end() {
    let src = "fn main() { if a { return 1; } b(); }";
    let blocks = analyze(src);
    let ends: Vec<_> = blocks.iter().filter(|b| b.kind == BlockType::End).collect();
    // The conditional return's end, and the function's own: flow continues
    // past the branch.
    assert_eq!(ends.len(), 2);
    assert_eq!(ends[0].text, "1");
    assert_eq!(ends[1].text, "end");
}

#[test]
fn bare_loop_cycle() {
    let src = "fn main() { loop { tick(); } }";
    let blocks = analyze(src);
    let cycles: Vec<_> = blocks.iter().filter(|b| b.kind == BlockType::Cycle).collect();
    assert_eq!(cycles.len(), 1);
    assert_eq!(cycles[0].text, "loop");
}

#[test]
fn nested_loop_in_branch() {
    let src = "fn main() { if a { while b { c(); } } }";
    let blocks = analyze(src);
    let kinds: Vec<BlockType> = blocks.iter().map(|b| b.kind).collect();
    assert_eq!(
        kinds,
        vec![
            BlockType::Start,
            BlockType::Condition,
            BlockType::Cycle,
            BlockType::Action,
            BlockType::End,
            BlockType::End,
        ]
    );
    // The loop's end records the cycle's coordinates.
    assert_eq!((blocks[4].x, blocks[4].y), (blocks[2].x, blocks[2].y));
}

#[test]
fn two_functions_in_one_file() {
    let src = "fn alpha() { a(); }\nfn beta() { b(); }";
    let blocks = analyze(src);
    let starts: Vec<_> = blocks.iter().filter(|b| b.kind == BlockType::Start).collect();
    assert_eq!(starts.len(), 2);
    assert_eq!(starts[0].text, "alpha");
    assert_eq!(starts[1].text, "beta");
    // The second function begins below everything the first emitted.
    assert!(starts[1].y > starts[0].y);
}

#[test]
fn scope_stack_balances_on_deep_nesting() {
    // The walk completes: no leaked scope aborts the conversion.
    let src = "fn main() { if a { for i in v { match x { 1 => y(), _ => z() } } } }";
    let blocks = analyze(src);
    assert!(!blocks.is_empty());
    // One start, one condition, one cycle, one leading match condition.
    assert_eq!(blocks.iter().filter(|b| b.kind == BlockType::Start).count(), 1);
    assert_eq!(blocks.iter().filter(|b| b.kind == BlockType::Cycle).count(), 1);
    assert_eq!(blocks.iter().filter(|b| b.kind == BlockType::Condition).count(), 2);
}

#[test]
fn comments_do_not_emit_blocks() {
    let src = "// leading note\nfn main() { /* inner */ x(); }";
    let blocks = analyze(src);
    let kinds: Vec<BlockType> = blocks.iter().map(|b| b.kind).collect();
    assert_eq!(kinds, vec![BlockType::Start, BlockType::Action, BlockType::End]);
}

#[test]
fn non_ascii_text_carries_through() {
    let src = "fn main() { println!(\"привет\"); }";
    let blocks = analyze(src);
    assert_eq!(blocks[1].kind, BlockType::Print);
    assert_eq!(blocks[1].text, "привет");
}

#[test]
fn other_macros_stay_actions() {
    let src = "fn main() { assert_eq!(a, b); }";
    let blocks = analyze(src);
    assert_eq!(blocks[1].kind, BlockType::Action);
    assert_eq!(blocks[1].text, "assert_eq!(a, b)");
}

#[test]
fn empty_source_gives_no_blocks() {
    let blocks = analyze("");
    assert!(blocks.is_empty());
}

#[test]
fn match_with_block_arms_counts_each_once() {
    let src = "fn main() { match x { 1 => { a(); } _ => { b(); } } }";
    let blocks = analyze(src);
    let markers = blocks
        .iter()
        .filter(|b| b.kind == BlockType::Action || b.kind == BlockType::EndMatchArm)
        .count();
    assert_eq!(markers, 2);
    assert_eq!(
        blocks.iter().filter(|b| b.kind == BlockType::EndMatchArm).count(),
        1
    );
}

#[test]
fn rich_program_converts_completely() {
    let src = r#"
// A walk over most constructs at once.
fn main() {
    let mut x = 5;
    let y = 10;

    if x < y {
        println!("x is less than y");
    } else if x > y {
        println!("x is greater than y");
    } else {
        println!("x is equal to y");
    }

    for i in 0..5 {
        println!("i = {}", i);
    }

    let mut counter = 0;
    while counter < 5 {
        counter += 1;
    }

    let result: Result<i32, &str> = Ok(42);
    match result {
        Ok(value) => println!("Success: {}", value),
        Err(e) => println!("Error: {}", e),
    }

    return x;
}
"#;
    let blocks = analyze(src);
    assert_eq!(blocks[0].kind, BlockType::Start);
    assert_eq!(blocks[0].text, "main");
    // Three conditions: the two chained ifs and the match header.
    assert_eq!(
        blocks.iter().filter(|b| b.kind == BlockType::Condition).count(),
        3
    );
    // Two loops, each with its back-edge end at the cycle's coordinates.
    let cycles: Vec<_> = blocks.iter().filter(|b| b.kind == BlockType::Cycle).collect();
    assert_eq!(cycles.len(), 2);
    for c in &cycles {
        assert!(blocks
            .iter()
            .any(|b| b.kind == BlockType::End && b.x == c.x && b.y == c.y));
    }
    // The top-level return suppressed the function's own end block.
    assert_eq!(blocks.last().unwrap().kind, BlockType::End);
    assert_eq!(blocks.last().unwrap().text, "x");
}
