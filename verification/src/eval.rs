//! The evaluator: what one value does to the machine, both as a
//! mathematical definition (`spec_eval` and its companions) and as verified
//! executable code proved to follow that definition step for step.
//!
//! Evaluation depth is bounded by an explicit fuel argument: every descent
//! into a bound block, a conditional branch, or a binding's value costs one
//! unit, and running out is the `DepthExceeded` failure.  Apart from that
//! bound, which replaces the call-stack limit of an unverified
//! implementation, the fuel does not influence any result.

use crate::machine::InterpError;
use crate::machine::SpecVm;
use crate::machine::Vm;
use crate::value::NativeOp;
use crate::value::SpecVal;
use crate::value::Value;
use crate::value::spec_render;
use crate::value::vals_view;
use vstd::prelude::*;

verus! {

/// Truncating division of signed 32-bit numbers: a zero divisor is the
/// division-by-zero failure, and the one overflowing quotient wraps to the
/// minimum value as two's-complement arithmetic does.
pub open spec fn spec_divide(lhs: i32, rhs: i32) -> Result<i32, InterpError> {
    if rhs == 0 {
        Err(InterpError::DivisionByZero)
    } else {
        match lhs.checked_div(rhs) {
            Some(q) => Ok(q),
            None => Ok(i32::MIN),
        }
    }
}

/// The result a binary numeric operator computes from its two operands,
/// `lhs` deeper on the stack than `rhs`.  Addition, subtraction and
/// multiplication are two's-complement wrapping; comparison pushes 1 or 0.
pub open spec fn spec_arith(op: NativeOp, lhs: i32, rhs: i32) -> Result<i32, InterpError> {
    match op {
        NativeOp::Add => Ok(lhs.wrapping_add(rhs)),
        NativeOp::Sub => Ok(lhs.wrapping_sub(rhs)),
        NativeOp::Mul => Ok(lhs.wrapping_mul(rhs)),
        NativeOp::Div => spec_divide(lhs, rhs),
        _ => Ok(
            if lhs < rhs {
                1
            } else {
                0
            },
        ),
    }
}

/// Pops a number from the operand stack: underflow if the stack is empty,
/// a type mismatch if the top is not a number.
pub open spec fn spec_pop_num(vm: SpecVm) -> Result<(i32, SpecVm), InterpError> {
    if vm.stack.len() == 0 {
        Err(InterpError::StackUnderflow)
    } else {
        match vm.stack.last() {
            SpecVal::Num(n) => Ok((n, SpecVm { stack: vm.stack.drop_last(), ..vm })),
            _ => Err(InterpError::TypeMismatch),
        }
    }
}

/// Pops a block from the operand stack: underflow if the stack is empty, a
/// type mismatch if the top is not a block.
pub open spec fn spec_pop_block(vm: SpecVm) -> Result<(Seq<SpecVal>, SpecVm), InterpError> {
    if vm.stack.len() == 0 {
        Err(InterpError::StackUnderflow)
    } else {
        match vm.stack.last() {
            SpecVal::Block(items) => Ok((items, SpecVm { stack: vm.stack.drop_last(), ..vm })),
            _ => Err(InterpError::TypeMismatch),
        }
    }
}

/// A binary numeric operator: pop `rhs`, pop `lhs`, push the result.
pub open spec fn spec_binary(op: NativeOp, vm: SpecVm) -> Result<SpecVm, InterpError> {
    match spec_pop_num(vm) {
        Err(e) => Err(e),
        Ok((rhs, vm1)) => match spec_pop_num(vm1) {
            Err(e) => Err(e),
            Ok((lhs, vm2)) => match spec_arith(op, lhs, rhs) {
                Err(e) => Err(e),
                Ok(n) => Ok(SpecVm { stack: vm2.stack.push(SpecVal::Num(n)), ..vm2 }),
            },
        },
    }
}

/// `dup`: push a copy of the top of the stack.
pub open spec fn spec_dup(vm: SpecVm) -> Result<SpecVm, InterpError> {
    if vm.stack.len() == 0 {
        Err(InterpError::StackUnderflow)
    } else {
        Ok(SpecVm { stack: vm.stack.push(vm.stack.last()), ..vm })
    }
}

/// `exch`: swap the two topmost stack values.
pub open spec fn spec_exch(vm: SpecVm) -> Result<SpecVm, InterpError> {
    if vm.stack.len() < 2 {
        Err(InterpError::StackUnderflow)
    } else {
        let top = vm.stack.last();
        let second = vm.stack.drop_last().last();
        Ok(SpecVm { stack: vm.stack.drop_last().drop_last().push(top).push(second), ..vm })
    }
}

/// `puts`: pop the top of the stack and append its rendering to the output.
pub open spec fn spec_puts(vm: SpecVm) -> Result<SpecVm, InterpError> {
    if vm.stack.len() == 0 {
        Err(InterpError::StackUnderflow)
    } else {
        Ok(
            SpecVm {
                stack: vm.stack.drop_last(),
                output: vm.output.push(spec_render(vm.stack.last())),
                ..vm
            },
        )
    }
}

/// `if`: pop the false branch, the true branch and the condition, all three
/// blocks; run the condition, pop the number it leaves, and run the true
/// branch if that number is nonzero, else the false branch.
pub open spec fn spec_if(vm: SpecVm, fuel: nat) -> Result<SpecVm, InterpError>
    decreases fuel, 0nat, 0nat,
{
    match spec_pop_block(vm) {
        Err(e) => Err(e),
        Ok((false_branch, vm1)) => match spec_pop_block(vm1) {
            Err(e) => Err(e),
            Ok((true_branch, vm2)) => match spec_pop_block(vm2) {
                Err(e) => Err(e),
                Ok((cond, vm3)) => {
                    if fuel == 0 {
                        Err(InterpError::DepthExceeded)
                    } else {
                        match spec_eval_seq(cond, vm3, (fuel - 1) as nat) {
                            Err(e) => Err(e),
                            Ok(vm4) => match spec_pop_num(vm4) {
                                Err(e) => Err(e),
                                Ok((c, vm5)) => {
                                    if c != 0 {
                                        spec_eval_seq(true_branch, vm5, (fuel - 1) as nat)
                                    } else {
                                        spec_eval_seq(false_branch, vm5, (fuel - 1) as nat)
                                    }
                                },
                            },
                        }
                    }
                },
            },
        },
    }
}

/// `def`: pop the value to bind, evaluate it (so a name bound to another
/// name resolves to its value rather than to the raw token), pop the
/// evaluated result, pop the symbol naming the binding, and insert or
/// overwrite that binding.
pub open spec fn spec_def(vm: SpecVm, fuel: nat) -> Result<SpecVm, InterpError>
    decreases fuel, 0nat, 0nat,
{
    if vm.stack.len() == 0 {
        Err(InterpError::StackUnderflow)
    } else {
        let value = vm.stack.last();
        let vm1 = SpecVm { stack: vm.stack.drop_last(), ..vm };
        if fuel == 0 {
            Err(InterpError::DepthExceeded)
        } else {
            match spec_eval(value, vm1, (fuel - 1) as nat) {
                Err(e) => Err(e),
                Ok(vm2) => {
                    if vm2.stack.len() == 0 {
                        Err(InterpError::StackUnderflow)
                    } else {
                        let bound = vm2.stack.last();
                        let vm3 = SpecVm { stack: vm2.stack.drop_last(), ..vm2 };
                        if vm3.stack.len() == 0 {
                            Err(InterpError::StackUnderflow)
                        } else {
                            match vm3.stack.last() {
                                SpecVal::Sym(name) => Ok(
                                    SpecVm {
                                        stack: vm3.stack.drop_last(),
                                        vars: vm3.vars.insert(name, bound),
                                        ..vm3
                                    },
                                ),
                                _ => Err(InterpError::TypeMismatch),
                            }
                        }
                    }
                },
            }
        }
    }
}

/// What one native procedure does to the machine.
pub open spec fn spec_native(op: NativeOp, vm: SpecVm, fuel: nat) -> Result<SpecVm, InterpError>
    decreases fuel, 1nat, 0nat,
{
    match op {
        NativeOp::If => spec_if(vm, fuel),
        NativeOp::Def => spec_def(vm, fuel),
        NativeOp::Puts => spec_puts(vm),
        NativeOp::Dup => spec_dup(vm),
        NativeOp::Exch => spec_exch(vm),
        _ => spec_binary(op, vm),
    }
}

/// What evaluating one value does to the machine.
///
/// While a block is being accumulated, every value is appended to the
/// innermost accumulator instead of being evaluated.  Otherwise every
/// non-operator value is pushed onto the stack unchanged, and an operator
/// is resolved through the bindings: a bound block runs element by element,
/// a bound native procedure is invoked, any other bound value is pushed as
/// a literal, and a name with no binding is the undefined-name failure.
pub open spec fn spec_eval(code: SpecVal, vm: SpecVm, fuel: nat) -> Result<SpecVm, InterpError>
    decreases fuel, 2nat, 0nat,
{
    if vm.blocks.len() > 0 {
        let inner = vm.blocks.last().push(code);
        Ok(SpecVm { blocks: vm.blocks.drop_last().push(inner), ..vm })
    } else {
        match code {
            SpecVal::Op(name) => {
                if !vm.vars.contains_key(name) {
                    Err(InterpError::UndefinedName)
                } else {
                    match vm.vars[name] {
                        SpecVal::Block(body) => {
                            if fuel == 0 {
                                Err(InterpError::DepthExceeded)
                            } else {
                                spec_eval_seq(body, vm, (fuel - 1) as nat)
                            }
                        },
                        SpecVal::Native(op) => spec_native(op, vm, fuel),
                        bound => Ok(SpecVm { stack: vm.stack.push(bound), ..vm }),
                    }
                }
            },
            literal => Ok(SpecVm { stack: vm.stack.push(literal), ..vm }),
        }
    }
}

/// Evaluates a sequence of values in order, threading the machine state and
/// stopping at the first failure.
pub open spec fn spec_eval_seq(codes: Seq<SpecVal>, vm: SpecVm, fuel: nat) -> Result<
    SpecVm,
    InterpError,
>
    decreases fuel, 3nat, codes.len(),
{
    if codes.len() == 0 {
        Ok(vm)
    } else {
        match spec_eval(codes.first(), vm, fuel) {
            Err(e) => Err(e),
            Ok(vm1) => spec_eval_seq(codes.drop_first(), vm1, fuel),
        }
    }
}

/// An arithmetic or comparison operator: pop `rhs`, pop `lhs` (both must be
/// numbers), push `lhs <op> rhs`.
pub fn binary_op(op: NativeOp, vm: &mut Vm) -> (r: Result<(), InterpError>)
    requires
        op is Add || op is Sub || op is Mul || op is Div || op is Lt,
    ensures
        match r {
            Ok(_) => spec_binary(op, old(vm)@) == Ok::<SpecVm, InterpError>(final(vm)@),
            Err(e) => spec_binary(op, old(vm)@) == Err::<SpecVm, InterpError>(e),
        },
{
    let rhs_v = match vm.pop_value() {
        Ok(v) => v,
        Err(e) => return Err(e),
    };
    let rhs = match rhs_v {
        Value::Num(n) => n,
        _ => return Err(InterpError::TypeMismatch),
    };
    let lhs_v = match vm.pop_value() {
        Ok(v) => v,
        Err(e) => return Err(e),
    };
    let lhs = match lhs_v {
        Value::Num(n) => n,
        _ => return Err(InterpError::TypeMismatch),
    };
    let n = match op {
        NativeOp::Add => lhs.wrapping_add(rhs),
        NativeOp::Sub => lhs.wrapping_sub(rhs),
        NativeOp::Mul => lhs.wrapping_mul(rhs),
        NativeOp::Div => {
            if rhs == 0 {
                return Err(InterpError::DivisionByZero);
            }
            match lhs.checked_div(rhs) {
                Some(q) => q,
                None => i32::MIN,
            }
        },
        _ => {
            if lhs < rhs {
                1
            } else {
                0
            }
        },
    };
    vm.push_value(Value::Num(n));
    Ok(())
}

/// `dup`: duplicate the top of the stack without removing it.
pub fn dup(vm: &mut Vm) -> (r: Result<(), InterpError>)
    ensures
        match r {
            Ok(_) => spec_dup(old(vm)@) == Ok::<SpecVm, InterpError>(final(vm)@),
            Err(e) => spec_dup(old(vm)@) == Err::<SpecVm, InterpError>(e),
        },
{
    let v = match vm.pop_value() {
        Ok(v) => v,
        Err(e) => return Err(e),
    };
    let copy = v.clone();
    vm.push_value(v);
    vm.push_value(copy);
    proof {
        assert(old(vm)@.stack.drop_last().push(old(vm)@.stack.last()) =~= old(vm)@.stack);
    }
    Ok(())
}

/// `exch`: pop two values and push them back in swapped order.
pub fn exch(vm: &mut Vm) -> (r: Result<(), InterpError>)
    ensures
        match r {
            Ok(_) => spec_exch(old(vm)@) == Ok::<SpecVm, InterpError>(final(vm)@),
            Err(e) => spec_exch(old(vm)@) == Err::<SpecVm, InterpError>(e),
        },
{
    let top = match vm.pop_value() {
        Ok(v) => v,
        Err(e) => return Err(e),
    };
    let second = match vm.pop_value() {
        Ok(v) => v,
        Err(e) => return Err(e),
    };
    vm.push_value(top);
    vm.push_value(second);
    Ok(())
}

/// `puts`: pop the top of the stack and append its rendered text to the
/// machine's output.
pub fn puts(vm: &mut Vm) -> (r: Result<(), InterpError>)
    ensures
        match r {
            Ok(_) => spec_puts(old(vm)@) == Ok::<SpecVm, InterpError>(final(vm)@),
            Err(e) => spec_puts(old(vm)@) == Err::<SpecVm, InterpError>(e),
        },
{
    let v = match vm.pop_value() {
        Ok(v) => v,
        Err(e) => return Err(e),
    };
    let text = v.to_string();
    vm.push_output(text);
    Ok(())
}

/// Evaluates one value against the machine, following [`spec_eval`].
pub fn eval(code: Value, vm: &mut Vm, fuel: u32) -> (r: Result<(), InterpError>)
    ensures
        match r {
            Ok(_) => spec_eval(code@, old(vm)@, fuel as nat) == Ok::<SpecVm, InterpError>(
                final(vm)@,
            ),
            Err(e) => spec_eval(code@, old(vm)@, fuel as nat) == Err::<SpecVm, InterpError>(e),
        },
    decreases fuel, 2int, 0int,
{
    let ghost c0 = code@;
    if vm.blocks.len() > 0 {
        let mut inner = match vm.blocks.pop() {
            Some(b) => b,
            None => vstd::pervasive::unreached(),
        };
        proof {
            assert(vals_view(inner@) == old(vm)@.blocks.last());
        }
        inner.push(code);
        let ghost gi = inner@;
        vm.blocks.push(inner);
        proof {
            assert(vals_view(gi) =~= old(vm)@.blocks.last().push(c0));
            assert(crate::machine::blocks_view(vm.blocks@) =~= old(vm)@.blocks.drop_last().push(
                old(vm)@.blocks.last().push(c0),
            ));
            assert(vm@ =~= (SpecVm {
                blocks: old(vm)@.blocks.drop_last().push(old(vm)@.blocks.last().push(c0)),
                ..old(vm)@
            }));
        }
        return Ok(());
    }
    match code {
        Value::Op(name) => {
            match vm.lookup(&name) {
                None => Err(InterpError::UndefinedName),
                Some(bound) => {
                    match bound {
                        Value::Block(body) => {
                            if fuel == 0 {
                                return Err(InterpError::DepthExceeded);
                            }
                            let r = eval_seq(&body, vm, fuel - 1);
                            r
                        },
                        Value::Native(op) => run_native(op, vm, fuel),
                        other => {
                            vm.push_value(other);
                            Ok(())
                        },
                    }
                },
            }
        },
        other => {
            vm.push_value(other);
            Ok(())
        },
    }
}

/// Evaluates the contents of a block in order, following
/// [`spec_eval_seq`].
pub fn eval_seq(codes: &Vec<Value>, vm: &mut Vm, fuel: u32) -> (r: Result<(), InterpError>)
    ensures
        match r {
            Ok(_) => spec_eval_seq(vals_view(codes@), old(vm)@, fuel as nat) == Ok::<
                SpecVm,
                InterpError,
            >(final(vm)@),
            Err(e) => spec_eval_seq(vals_view(codes@), old(vm)@, fuel as nat) == Err::<
                SpecVm,
                InterpError,
            >(e),
        },
    decreases fuel, 4int, 0int,
{
    let r = eval_from(codes, 0, vm, fuel);
    proof {
        assert(vals_view(codes@).skip(0) =~= vals_view(codes@));
    }
    r
}

/// Evaluates the tail of a block that starts at position `i`.
fn eval_from(codes: &Vec<Value>, i: usize, vm: &mut Vm, fuel: u32) -> (r: Result<(), InterpError>)
    requires
        i <= codes@.len(),
    ensures
        match r {
            Ok(_) => spec_eval_seq(vals_view(codes@).skip(i as int), old(vm)@, fuel as nat)
                == Ok::<SpecVm, InterpError>(final(vm)@),
            Err(e) => spec_eval_seq(vals_view(codes@).skip(i as int), old(vm)@, fuel as nat)
                == Err::<SpecVm, InterpError>(e),
        },
    decreases fuel, 3int, codes@.len() - i,
{
    let ghost s = vals_view(codes@).skip(i as int);
    if i == codes.len() {
        proof {
            assert(s =~= Seq::<SpecVal>::empty());
        }
        return Ok(());
    }
    let c = codes[i].clone();
    proof {
        assert(s.first() == c@);
    }
    match eval(c, vm, fuel) {
        Err(e) => Err(e),
        Ok(_) => {
            let r = eval_from(codes, i + 1, vm, fuel);
            proof {
                assert(s.drop_first() =~= vals_view(codes@).skip(i as int + 1));
            }
            r
        },
    }
}

/// Invokes one native procedure, following [`spec_native`].
pub fn run_native(op: NativeOp, vm: &mut Vm, fuel: u32) -> (r: Result<(), InterpError>)
    ensures
        match r {
            Ok(_) => spec_native(op, old(vm)@, fuel as nat) == Ok::<SpecVm, InterpError>(
                final(vm)@,
            ),
            Err(e) => spec_native(op, old(vm)@, fuel as nat) == Err::<SpecVm, InterpError>(e),
        },
    decreases fuel, 1int, 0int,
{
    match op {
        NativeOp::If => op_if(vm, fuel),
        NativeOp::Def => op_def(vm, fuel),
        NativeOp::Puts => puts(vm),
        NativeOp::Dup => dup(vm),
        NativeOp::Exch => exch(vm),
        _ => binary_op(op, vm),
    }
}

/// The `if` operator, following [`spec_if`]: pop the false branch, the
/// true branch and the condition block, run the condition, pop the number
/// it leaves, and run the branch that number selects.
pub fn op_if(vm: &mut Vm, fuel: u32) -> (r: Result<(), InterpError>)
    ensures
        match r {
            Ok(_) => spec_if(old(vm)@, fuel as nat) == Ok::<SpecVm, InterpError>(final(vm)@),
            Err(e) => spec_if(old(vm)@, fuel as nat) == Err::<SpecVm, InterpError>(e),
        },
    decreases fuel, 0int, 0int,
{
    let v = match vm.pop_value() {
        Ok(v) => v,
        Err(e) => return Err(e),
    };
    let false_branch = match v {
        Value::Block(b) => b,
        _ => return Err(InterpError::TypeMismatch),
    };
    let v = match vm.pop_value() {
        Ok(v) => v,
        Err(e) => return Err(e),
    };
    let true_branch = match v {
        Value::Block(b) => b,
        _ => return Err(InterpError::TypeMismatch),
    };
    let v = match vm.pop_value() {
        Ok(v) => v,
        Err(e) => return Err(e),
    };
    let cond = match v {
        Value::Block(b) => b,
        _ => return Err(InterpError::TypeMismatch),
    };
    if fuel == 0 {
        return Err(InterpError::DepthExceeded);
    }
    match eval_seq(&cond, vm, fuel - 1) {
        Ok(_) => {},
        Err(e) => return Err(e),
    }
    let v = match vm.pop_value() {
        Ok(v) => v,
        Err(e) => return Err(e),
    };
    let c = match v {
        Value::Num(n) => n,
        _ => return Err(InterpError::TypeMismatch),
    };
    if c != 0 {
        eval_seq(&true_branch, vm, fuel - 1)
    } else {
        eval_seq(&false_branch, vm, fuel - 1)
    }
}

/// The `def` operator, following [`spec_def`]: pop the value to bind,
/// evaluate it, pop the result, pop the symbol, and bind the name.
pub fn op_def(vm: &mut Vm, fuel: u32) -> (r: Result<(), InterpError>)
    ensures
        match r {
            Ok(_) => spec_def(old(vm)@, fuel as nat) == Ok::<SpecVm, InterpError>(final(vm)@),
            Err(e) => spec_def(old(vm)@, fuel as nat) == Err::<SpecVm, InterpError>(e),
        },
    decreases fuel, 0int, 0int,
{
    let value = match vm.pop_value() {
        Ok(v) => v,
        Err(e) => return Err(e),
    };
    if fuel == 0 {
        return Err(InterpError::DepthExceeded);
    }
    match eval(value, vm, fuel - 1) {
        Ok(_) => {},
        Err(e) => return Err(e),
    }
    let bound = match vm.pop_value() {
        Ok(v) => v,
        Err(e) => return Err(e),
    };
    let symv = match vm.pop_value() {
        Ok(v) => v,
        Err(e) => return Err(e),
    };
    let name = match symv {
        Value::Sym(s) => s,
        _ => return Err(InterpError::TypeMismatch),
    };
    vm.insert_binding(name, bound);
    Ok(())
}

} // verus!
