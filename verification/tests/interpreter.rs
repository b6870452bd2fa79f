//! Whole-program runs: words in, final stack out.

use stacklang::machine::Vm;
use stacklang::parser::parse_batch;
use stacklang::parser::process_line;
use stacklang::value::Value;

#[test]
fn test_group() {
    assert_eq!(
        parse_batch("1 2 + { 3 4 * }").unwrap(),
        vec![
            Value::Num(3),
            Value::Block(vec![Value::Num(3), Value::Num(4), Value::Op("*".to_string())])
        ]
    );
}

#[test]
fn test_if_false() {
    assert_eq!(parse_batch("{ 0 } { 1 } { -1 } if").unwrap(), vec![Value::Num(-1)]);
}

#[test]
fn test_if_true() {
    assert_eq!(parse_batch("{ 1 } { 1 } { -1 } if").unwrap(), vec![Value::Num(1)]);
}

#[test]
fn test_multiline() {
    let input = "\n/x 10 def\n/y 20 def\n\n{ x y < }\n{ x }\n{ y }\nif\n";
    assert_eq!(parse_batch(input).unwrap(), vec![Value::Num(10)]);
}

#[test]
fn test_function_definition() {
    let input = "\n/double { 2 * } def\n10 double\n";
    assert_eq!(parse_batch(input).unwrap(), vec![Value::Num(20)]);
}

#[test]
fn test_single_addition() {
    assert_eq!(parse_batch("1 2 +").unwrap(), vec![Value::Num(3)]);
}

#[test]
fn test_binding_round_trip() {
    assert_eq!(parse_batch("/x 10 def x").unwrap(), vec![Value::Num(10)]);
}

#[test]
fn test_bindings_persist_across_lines() {
    let mut vm = Vm::new();
    process_line("/x 10 def", &mut vm).unwrap();
    process_line("x", &mut vm).unwrap();
    assert_eq!(vm.stack, vec![Value::Num(10)]);
}

#[test]
fn test_open_block_spans_lines() {
    let mut vm = Vm::new();
    process_line("1 {", &mut vm).unwrap();
    process_line("2 } ", &mut vm).unwrap();
    assert_eq!(
        vm.stack,
        vec![Value::Num(1), Value::Block(vec![Value::Num(2)])]
    );
}

#[test]
fn test_nested_blocks_stay_deferred() {
    assert_eq!(
        parse_batch("{ 1 { 2 } }").unwrap(),
        vec![Value::Block(vec![
            Value::Num(1),
            Value::Block(vec![Value::Num(2)])
        ])]
    );
}

#[test]
fn test_lone_marker_is_empty_symbol() {
    assert_eq!(parse_batch("/").unwrap(), vec![Value::Sym(String::new())]);
}

#[test]
fn test_ideographic_space_ignored() {
    assert_eq!(
        parse_batch("1 \u{3000} 2").unwrap(),
        vec![Value::Num(1), Value::Num(2)]
    );
}

#[test]
fn test_signed_literals() {
    assert_eq!(
        parse_batch("+5 -7 -2147483648").unwrap(),
        vec![Value::Num(5), Value::Num(-7), Value::Num(i32::MIN)]
    );
}

#[test]
fn test_overlong_number_is_an_operator() {
    // A word of digits whose value does not fit a signed 32-bit integer is
    // not a numeric literal; it falls through to operator classification
    // and, being unbound, fails.
    assert_eq!(
        parse_batch("2147483648"),
        Err(stacklang::machine::InterpError::UndefinedName)
    );
}

#[test]
fn test_bound_constant_pushes_value() {
    assert_eq!(parse_batch("/k 41 def k 1 +").unwrap(), vec![Value::Num(42)]);
}

#[test]
fn test_later_binding_shadows_earlier() {
    assert_eq!(parse_batch("/x 1 def /x 2 def x").unwrap(), vec![Value::Num(2)]);
}

#[test]
fn test_def_binds_resolved_value() {
    // `def` evaluates the value it binds, so a name defined from another
    // name is bound to that name's value, not to the raw operator token.
    assert_eq!(parse_batch("/x 5 def /y x def y").unwrap(), vec![Value::Num(5)]);
}
