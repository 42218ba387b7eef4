//! Tests of the accumulator, the layout context and the shell helpers.

use flowblocks::{
    get_argument, find_language, BlockScope, BlockType, Context, DiagramBuilder,
};

#[test]
fn builder_starts_empty() {
    let b = DiagramBuilder::new();
    assert!(b.blocks.is_empty());
    assert_eq!(b.position, (0, 0));
    assert!(b.block_stack.is_empty());
}

#[test]
fn add_block_records_cursor() {
    let mut b = DiagramBuilder::new();
    b.add_block(BlockType::Start, "main".to_string());
    b.enter_scope(BlockScope::Function, 0, 100);
    b.add_block(BlockType::Action, "step".to_string());
    assert_eq!(b.blocks.len(), 2);
    assert_eq!(b.blocks[0].kind, BlockType::Start);
    assert_eq!((b.blocks[0].x, b.blocks[0].y), (0, 0));
    assert_eq!((b.blocks[1].x, b.blocks[1].y), (0, 100));
}

#[test]
fn enter_and_exit_scope_pair_up() {
    let mut b = DiagramBuilder::new();
    b.enter_scope(BlockScope::If(0, 0, 100), 100, 100);
    assert_eq!(b.position, (100, 100));
    let popped = b.exit_scope();
    assert!(matches!(popped, Some(BlockScope::If(0, 0, 100))));
    assert!(b.exit_scope().is_none());
}

#[test]
fn scope_shifts_saturate() {
    let mut b = DiagramBuilder::new();
    b.enter_scope(BlockScope::Function, i32::MAX, i32::MIN);
    b.enter_scope(BlockScope::Function, 100, -100);
    assert_eq!(b.position, (i32::MAX, i32::MIN));
}

#[test]
fn fresh_context_is_clean() {
    let c = Context::new();
    assert!(c.builder.blocks.is_empty());
    assert!(c.builder.block_stack.is_empty());
    assert!(c.if_else_stack.is_empty());
    assert_eq!(c.y_if_max, 0);
    assert!(!c.skip_until_brace);
    assert!(!c.is_return);
}

#[test]
fn get_argument_picks_by_index() {
    let args = vec!["prog".to_string(), "rust".to_string(), "file.rs".to_string()];
    assert_eq!(get_argument(&args, 1), Some("rust".to_string()));
    assert_eq!(get_argument(&args, 2), Some("file.rs".to_string()));
    assert_eq!(get_argument(&args, 3), None);
}

#[test]
fn find_language_ignores_ascii_case() {
    let names = vec!["Rust".to_string(), "Zig".to_string()];
    assert_eq!(find_language(&names, "rUsT"), Some(0));
    assert_eq!(find_language(&names, "zig"), Some(1));
    assert_eq!(find_language(&names, "ada"), None);
}
