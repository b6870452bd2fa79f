//! The built-in operators, exercised one by one.

use stacklang::eval::binary_op;
use stacklang::eval::dup;
use stacklang::eval::exch;
use stacklang::machine::InterpError;
use stacklang::machine::Vm;
use stacklang::parser::parse_batch;
use stacklang::parser::process_line;
use stacklang::value::NativeOp;
use stacklang::value::Value;

#[test]
fn test_arithmetic_results() {
    assert_eq!(parse_batch("8 3 -").unwrap(), vec![Value::Num(5)]);
    assert_eq!(parse_batch("6 7 *").unwrap(), vec![Value::Num(42)]);
    assert_eq!(parse_batch("0 5 -").unwrap(), vec![Value::Num(-5)]);
}

#[test]
fn test_division_truncates_toward_zero() {
    let cases: [(i32, i32, i32); 5] =
        [(7, 2, 3), (-7, 2, -3), (7, -2, -3), (-7, -2, 3), (0, 9, 0)];
    for (lhs, rhs, expected) in cases {
        let mut vm = Vm::new();
        vm.push_value(Value::Num(lhs));
        vm.push_value(Value::Num(rhs));
        binary_op(NativeOp::Div, &mut vm).unwrap();
        assert_eq!(vm.stack, vec![Value::Num(expected)]);
    }
}

#[test]
fn test_division_by_zero() {
    let mut vm = Vm::new();
    vm.push_value(Value::Num(1));
    vm.push_value(Value::Num(0));
    assert_eq!(binary_op(NativeOp::Div, &mut vm), Err(InterpError::DivisionByZero));
}

#[test]
fn test_comparison_pushes_one_or_zero() {
    assert_eq!(parse_batch("1 2 <").unwrap(), vec![Value::Num(1)]);
    assert_eq!(parse_batch("2 1 <").unwrap(), vec![Value::Num(0)]);
    assert_eq!(parse_batch("2 2 <").unwrap(), vec![Value::Num(0)]);
}

#[test]
fn test_dup_duplicates_top() {
    assert_eq!(parse_batch("5 dup").unwrap(), vec![Value::Num(5), Value::Num(5)]);
}

#[test]
fn test_exch_swaps_top_two() {
    assert_eq!(parse_batch("1 2 exch").unwrap(), vec![Value::Num(2), Value::Num(1)]);
}

#[test]
fn test_dup_then_exch_twice_restores_stack() {
    let mut vm = Vm::new();
    vm.push_value(Value::Num(1));
    vm.push_value(Value::Num(2));
    dup(&mut vm).unwrap();
    let after_dup = vm.stack.clone();
    exch(&mut vm).unwrap();
    exch(&mut vm).unwrap();
    assert_eq!(vm.stack, after_dup);
}

#[test]
fn test_puts_renders_number() {
    let mut vm = Vm::new();
    process_line("-42 puts", &mut vm).unwrap();
    assert_eq!(vm.output, vec!["-42".to_string()]);
    assert_eq!(vm.stack, vec![]);
}

#[test]
fn test_puts_renders_block_opaquely() {
    let mut vm = Vm::new();
    process_line("{ 1 } puts", &mut vm).unwrap();
    assert_eq!(vm.output, vec!["<Block>".to_string()]);
}

#[test]
fn test_puts_renders_symbol_name() {
    let mut vm = Vm::new();
    process_line("/name puts", &mut vm).unwrap();
    assert_eq!(vm.output, vec!["name".to_string()]);
}

#[test]
fn test_value_rendering() {
    assert_eq!(Value::Num(123).to_string(), "123");
    assert_eq!(Value::Num(-5).to_string(), "-5");
    assert_eq!(Value::Num(0).to_string(), "0");
    assert_eq!(Value::Num(i32::MIN).to_string(), "-2147483648");
    assert_eq!(Value::Op("+".to_string()).to_string(), "+");
    assert_eq!(Value::Native(NativeOp::Add).to_string(), "<Native>");
}

#[test]
fn test_value_accessors() {
    assert_eq!(Value::Num(7).as_num(), 7);
    assert_eq!(Value::Sym("x".to_string()).as_sym(), "x");
    assert_eq!(
        Value::Block(vec![Value::Num(1)]).to_block(),
        vec![Value::Num(1)]
    );
}

#[test]
fn test_render_stack() {
    let mut vm = Vm::new();
    assert_eq!(vm.render_stack(), "");
    process_line("1 -2 { 3 } /s", &mut vm).unwrap();
    assert_eq!(vm.render_stack(), "1 -2 <Block> s");
}

#[test]
fn test_initial_bindings_hold_natives() {
    let vm = Vm::new();
    assert_eq!(vm.lookup(&"+".to_string()), Some(Value::Native(NativeOp::Add)));
    assert_eq!(vm.lookup(&"if".to_string()), Some(Value::Native(NativeOp::If)));
    assert_eq!(vm.lookup(&"missing".to_string()), None);
}
