//! Laws of the interpreter: general properties that hold of every input,
//! stated over the specification functions and proved once and for all.

use crate::eval::spec_binary;
use crate::eval::spec_def;
use crate::eval::spec_dup;
use crate::eval::spec_eval;
use crate::eval::spec_eval_seq;
use crate::eval::spec_exch;
use crate::eval::spec_if;
use crate::eval::spec_pop_num;
use crate::eval::spec_puts;
use crate::machine::InterpError;
use crate::machine::SpecVm;
use crate::parser::spec_run;
use crate::parser::spec_run_chars;
use crate::parser::spec_word;
use crate::value::NativeOp;
use crate::value::SpecVal;
use vstd::prelude::*;

verus! {

/// Division truncating toward zero, written by the magnitudes of the
/// operands.
pub open spec fn trunc_quotient(a: int, b: int) -> int {
    if a == 0 {
        0
    } else if a > 0 && b > 0 {
        a / b
    } else if a < 0 && b < 0 {
        (a * -1) / (b * -1)
    } else if a < 0 {
        ((a * -1) / b) * -1
    } else {
        (a / (b * -1)) * -1
    }
}

/// The machine with one more number on the stack and all else unchanged.
pub open spec fn with_pushed(vm: SpecVm, n: i32) -> SpecVm {
    SpecVm { stack: vm.stack.push(SpecVal::Num(n)), ..vm }
}

/// For a divisor of one or more, a quotient of non-negative `a` is at most
/// `a`.
proof fn lemma_quotient_bound(a: int, b: int)
    requires
        0 <= a,
        1 <= b,
    ensures
        0 <= a / b <= a,
{
    vstd::arithmetic::div_mod::lemma_div_nonincreasing(a, b);
    vstd::arithmetic::div_mod::lemma_div_is_ordered(0, a, b);
    assert(0int / b == 0) by {
        vstd::arithmetic::div_mod::lemma_small_mod(0nat, b as nat);
    }
}

/// Arithmetic on two numbers: evaluating the expression `a b <op>` — the
/// two numbers followed by an operator word bound to one of the arithmetic
/// built-ins, outside any block — pushes exactly the mathematical result.
/// Addition, subtraction and multiplication are stated where the true
/// result fits a signed 32-bit number; division truncates toward zero, is
/// stated away from the one overflowing quotient, and a zero divisor is
/// the division-by-zero failure.
pub proof fn lemma_arithmetic_expression(
    a: i32,
    b: i32,
    name: Seq<char>,
    op: NativeOp,
    vm: SpecVm,
    fuel: nat,
)
    requires
        vm.blocks.len() == 0,
        vm.vars.contains_key(name),
        vm.vars[name] == SpecVal::Native(op),
    ensures
        op is Add && i32::MIN <= a + b <= i32::MAX ==> spec_eval_seq(
            seq![SpecVal::Num(a), SpecVal::Num(b), SpecVal::Op(name)],
            vm,
            fuel,
        ) == Ok::<SpecVm, InterpError>(with_pushed(vm, (a + b) as i32)),
        op is Sub && i32::MIN <= a - b <= i32::MAX ==> spec_eval_seq(
            seq![SpecVal::Num(a), SpecVal::Num(b), SpecVal::Op(name)],
            vm,
            fuel,
        ) == Ok::<SpecVm, InterpError>(with_pushed(vm, (a - b) as i32)),
        op is Mul && i32::MIN <= a * b <= i32::MAX ==> spec_eval_seq(
            seq![SpecVal::Num(a), SpecVal::Num(b), SpecVal::Op(name)],
            vm,
            fuel,
        ) == Ok::<SpecVm, InterpError>(with_pushed(vm, (a * b) as i32)),
        op is Div && b != 0 && !(a == i32::MIN && b == -1) ==> spec_eval_seq(
            seq![SpecVal::Num(a), SpecVal::Num(b), SpecVal::Op(name)],
            vm,
            fuel,
        ) == Ok::<SpecVm, InterpError>(with_pushed(vm, trunc_quotient(a as int, b as int) as i32)),
        op is Div && b == 0 ==> spec_eval_seq(
            seq![SpecVal::Num(a), SpecVal::Num(b), SpecVal::Op(name)],
            vm,
            fuel,
        ) == Err::<SpecVm, InterpError>(InterpError::DivisionByZero),
{
    let s = seq![SpecVal::Num(a), SpecVal::Num(b), SpecVal::Op(name)];
    let vm1 = with_pushed(vm, a);
    let vm2 = with_pushed(vm1, b);
    assert(spec_eval(s[0], vm, fuel) == Ok::<SpecVm, InterpError>(vm1));
    assert(s.drop_first() =~= seq![SpecVal::Num(b), SpecVal::Op(name)]);
    assert(s.drop_first().drop_first() =~= seq![SpecVal::Op(name)]);
    assert(seq![SpecVal::Op(name)].drop_first() =~= Seq::<SpecVal>::empty());
    assert(spec_eval(SpecVal::Num(b), vm1, fuel) == Ok::<SpecVm, InterpError>(vm2));
    assert(vm2.stack.drop_last() =~= vm1.stack);
    assert(vm1.stack.drop_last() =~= vm.stack);
    assert(spec_pop_num(vm2) == Ok::<(i32, SpecVm), InterpError>((b, SpecVm {
        stack: vm1.stack,
        ..vm2
    })));
    assert((SpecVm { stack: vm1.stack, ..vm2 }) =~= vm1);
    assert(spec_pop_num(vm1) == Ok::<(i32, SpecVm), InterpError>((a, SpecVm {
        stack: vm.stack,
        ..vm1
    })));
    assert((SpecVm { stack: vm.stack, ..vm1 }) =~= vm);
    assert(spec_eval_seq(s, vm, fuel) == spec_eval(SpecVal::Op(name), vm2, fuel)) by {
        reveal_with_fuel(spec_eval_seq, 4);
    }
    assert(spec_eval(SpecVal::Op(name), vm2, fuel) == crate::eval::spec_native(op, vm2, fuel));
    if op is Add && i32::MIN <= a + b <= i32::MAX {
        assert(crate::eval::spec_arith(op, a, b) == Ok::<i32, InterpError>((a + b) as i32));
        assert(spec_binary(op, vm2) == Ok::<SpecVm, InterpError>(with_pushed(vm, (a + b) as i32)));
    }
    if op is Sub && i32::MIN <= a - b <= i32::MAX {
        assert(crate::eval::spec_arith(op, a, b) == Ok::<i32, InterpError>((a - b) as i32));
        assert(spec_binary(op, vm2) == Ok::<SpecVm, InterpError>(with_pushed(vm, (a - b) as i32)));
    }
    if op is Mul && i32::MIN <= a * b <= i32::MAX {
        assert(a.wrapping_mul(b) == (a * b) as i32) by {
            let r = 0x1_0000_0000int;
            if a * b >= 0 {
                vstd::arithmetic::div_mod::lemma_small_mod((a * b) as nat, r as nat);
            } else {
                vstd::arithmetic::div_mod::lemma_mod_add_multiples_vanish(a * b, r);
                vstd::arithmetic::div_mod::lemma_small_mod((a * b + r) as nat, r as nat);
            }
        }
    }
    if op is Div && b != 0 && !(a == i32::MIN && b == -1) {
        let x = a as int;
        let d = b as int;
        let q = trunc_quotient(x, d);
        assert(i32::MIN <= q <= i32::MAX) by {
            if x == 0 {
            } else if x > 0 && d > 0 {
                lemma_quotient_bound(x, d);
            } else if x < 0 && d < 0 {
                lemma_quotient_bound(x * -1, d * -1);
                if x == i32::MIN {
                    assert(d * -1 >= 2);
                    vstd::arithmetic::div_mod::lemma_div_is_ordered_by_denominator(
                        x * -1,
                        2,
                        d * -1,
                    );
                    assert((x * -1) / 2 == 0x4000_0000int);
                }
            } else if x < 0 {
                lemma_quotient_bound(x * -1, d);
            } else {
                lemma_quotient_bound(x, d * -1);
            }
        }
        assert(a.checked_div(b) == Some((q as i32)));
    }
}

/// `dup` followed by `exch` twice returns the stack to the state it had
/// right after the `dup`, for any stack with at least one value: the two
/// swaps cancel.
pub proof fn lemma_dup_exch_exch(vm: SpecVm)
    requires
        vm.stack.len() >= 1,
    ensures
        spec_dup(vm) is Ok,
        spec_dup(vm) matches Ok(vm1) ==> spec_exch(vm1) is Ok && (spec_exch(vm1) matches Ok(vm2)
            ==> spec_exch(vm2) == Ok::<SpecVm, InterpError>(vm1)),
{
    let s = vm.stack;
    let vm1 = SpecVm { stack: s.push(s.last()), ..vm };
    assert(spec_dup(vm) == Ok::<SpecVm, InterpError>(vm1));
    let t = vm1.stack;
    assert(t.drop_last() =~= s);
    let base = t.drop_last().drop_last();
    let vm2 = SpecVm { stack: base.push(t.last()).push(s.last()), ..vm1 };
    assert(spec_exch(vm1) == Ok::<SpecVm, InterpError>(vm2));
    let u = vm2.stack;
    assert(u.drop_last() =~= base.push(t.last()));
    assert(u.drop_last().drop_last() =~= base);
    assert(spec_exch(vm2) == Ok::<SpecVm, InterpError>(
        SpecVm { stack: base.push(u.last()).push(t.last()), ..vm2 },
    ));
    assert(base.push(u.last()).push(t.last()) =~= t);
    assert((SpecVm { stack: base.push(u.last()).push(t.last()), ..vm2 }) =~= vm1);
}

/// A block-close marker with no open block is the malformed-block failure,
/// and nothing else.
pub proof fn lemma_lone_close_marker(vm: SpecVm, fuel: nat)
    requires
        vm.blocks.len() == 0,
    ensures
        spec_word(seq!['}'], vm, fuel) == Err::<SpecVm, InterpError>(InterpError::MalformedBlock),
{
    assert(seq!['}'] != seq!['{']) by {
        if seq!['}'] == seq!['{'] {
            assert(seq!['}'][0] == seq!['{'][0]);
        }
    }
}

/// An operator word whose name has no binding is the undefined-name
/// failure: nothing is guessed or substituted.
pub proof fn lemma_undefined_name(name: Seq<char>, vm: SpecVm, fuel: nat)
    requires
        vm.blocks.len() == 0,
        !vm.vars.contains_key(name),
    ensures
        spec_eval(SpecVal::Op(name), vm, fuel) == Err::<SpecVm, InterpError>(
            InterpError::UndefinedName,
        ),
{
}

/// Every operator that pops from an empty stack is the stack-underflow
/// failure — distinguishable from the other failure kinds, never a silent
/// no-op.
pub proof fn lemma_stack_underflow(vm: SpecVm, fuel: nat)
    requires
        vm.stack.len() == 0,
    ensures
        forall|op: NativeOp| #[trigger] spec_binary(op, vm) == Err::<SpecVm, InterpError>(
            InterpError::StackUnderflow,
        ),
        spec_dup(vm) == Err::<SpecVm, InterpError>(InterpError::StackUnderflow),
        spec_exch(vm) == Err::<SpecVm, InterpError>(InterpError::StackUnderflow),
        spec_puts(vm) == Err::<SpecVm, InterpError>(InterpError::StackUnderflow),
        spec_if(vm, fuel) == Err::<SpecVm, InterpError>(InterpError::StackUnderflow),
        spec_def(vm, fuel) == Err::<SpecVm, InterpError>(InterpError::StackUnderflow),
{
}

proof fn lemma_run_chars_concat(s1: Seq<char>, s2: Seq<char>, pend: Seq<char>, vm: SpecVm)
    ensures
        spec_run_chars(s1 + seq!['\n'] + s2, pend, vm) == (match spec_run_chars(s1, pend, vm) {
            Ok(vm1) => spec_run_chars(s2, Seq::empty(), vm1),
            Err(e) => Err(e),
        }),
    decreases s1.len(),
{
    let whole = s1 + seq!['\n'] + s2;
    if s1.len() == 0 {
        assert(whole =~= seq!['\n'] + s2);
        assert(whole.first() == '\n');
        assert(whole.drop_first() =~= s2);
    } else {
        assert(whole.first() == s1.first());
        assert(whole.drop_first() =~= s1.drop_first() + seq!['\n'] + s2);
        if crate::parser::is_separator(s1.first()) {
            match spec_word(pend, vm, crate::parser::EVAL_DEPTH_LIMIT as nat) {
                Ok(vm1) => {
                    lemma_run_chars_concat(s1.drop_first(), s2, Seq::empty(), vm1);
                },
                Err(_) => {},
            }
        } else {
            lemma_run_chars_concat(s1.drop_first(), s2, pend.push(s1.first()), vm);
        }
    }
}

/// Multi-line persistence: feeding two texts with a line break between
/// them is the same as running the first and then running the second from
/// the machine the first one left behind — bindings and stack state
/// established on one input line remain visible to later lines.
pub proof fn lemma_lines_compose(first: Seq<char>, second: Seq<char>, vm: SpecVm)
    ensures
        spec_run(first + seq!['\n'] + second, vm) == (match spec_run(first, vm) {
            Ok(vm1) => spec_run(second, vm1),
            Err(e) => Err(e),
        }),
{
    lemma_run_chars_concat(first, second, Seq::empty(), vm);
}

} // verus!
