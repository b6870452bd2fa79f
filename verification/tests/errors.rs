//! Each failure kind, raised by an input that provokes it, and
//! distinguishable from the others.

use stacklang::machine::InterpError;
use stacklang::parser::parse_batch;

#[test]
fn test_malformed_block() {
    assert_eq!(parse_batch("}"), Err(InterpError::MalformedBlock));
}

#[test]
fn test_undefined_name() {
    assert_eq!(parse_batch("nosuchword"), Err(InterpError::UndefinedName));
}

#[test]
fn test_stack_underflow() {
    assert_eq!(parse_batch("+"), Err(InterpError::StackUnderflow));
    assert_eq!(parse_batch("dup"), Err(InterpError::StackUnderflow));
    assert_eq!(parse_batch("1 exch"), Err(InterpError::StackUnderflow));
}

#[test]
fn test_type_mismatch() {
    assert_eq!(parse_batch("{ } 1 +"), Err(InterpError::TypeMismatch));
    assert_eq!(parse_batch("1 2 3 if"), Err(InterpError::TypeMismatch));
}

#[test]
fn test_depth_exceeded() {
    assert_eq!(parse_batch("/f { f } def f"), Err(InterpError::DepthExceeded));
}

#[test]
fn test_failure_kinds_are_distinct() {
    assert_ne!(parse_batch("}"), parse_batch("nosuchword"));
    assert_ne!(parse_batch("}"), parse_batch("+"));
    assert_ne!(parse_batch("nosuchword"), parse_batch("+"));
}
