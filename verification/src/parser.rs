//! The reader: splitting input into words, classifying each word, and
//! feeding it to the evaluator.

use crate::eval::eval;
use crate::eval::spec_eval;
use crate::machine::InterpError;
use crate::machine::SpecVm;
use crate::machine::Vm;
use crate::machine::initial_vm;
use crate::numerals::is_i32_literal;
use crate::numerals::literal_val;
use crate::numerals::parse_i32;
use crate::value::SpecVal;
use crate::value::Value;
use crate::value::vals_view;
use vstd::prelude::*;
use vstd::string::StrSliceExecFns;

verus! {

/// How many levels of nested evaluation one word may trigger before the
/// run fails with `DepthExceeded`.  The bound replaces the call-stack limit
/// of an unverified implementation; see the module note in [`crate::eval`].
pub const EVAL_DEPTH_LIMIT: u32 = 256;

/// The classification of one non-empty word that is neither a block
/// delimiter nor the ignored ideographic space: a word that parses fully as
/// a signed 32-bit integer is a number; a word that begins with the marker
/// character `/` is a symbol named by the rest of the word (the name may be
/// empty: a lone `/` is the symbol with the empty name); every other word
/// is an operator named by the word itself.
pub open spec fn spec_classify(w: Seq<char>) -> SpecVal {
    if is_i32_literal(w) {
        SpecVal::Num(literal_val(w) as i32)
    } else if w.len() > 0 && w[0] == '/' {
        SpecVal::Sym(w.drop_first())
    } else {
        SpecVal::Op(w)
    }
}

/// What one word of input does to the machine.
///
/// An empty word is a no-op, which makes repeated or trailing separators
/// harmless.  A block-open marker pushes a fresh accumulator.  A block-close
/// marker pops the innermost accumulator and hands the completed block to
/// the evaluator (which appends it to the enclosing accumulator if one is
/// still open, and pushes it onto the stack otherwise); a close marker with
/// no open block is the malformed-block failure.  The ideographic space
/// (U+3000) is ignored.  Every other word is classified and evaluated.
pub open spec fn spec_word(w: Seq<char>, vm: SpecVm, fuel: nat) -> Result<SpecVm, InterpError> {
    if w.len() == 0 {
        Ok(vm)
    } else if w == seq!['{'] {
        Ok(SpecVm { blocks: vm.blocks.push(Seq::empty()), ..vm })
    } else if w == seq!['}'] {
        if vm.blocks.len() == 0 {
            Err(InterpError::MalformedBlock)
        } else {
            spec_eval(
                SpecVal::Block(vm.blocks.last()),
                SpecVm { blocks: vm.blocks.drop_last(), ..vm },
                fuel,
            )
        }
    } else if w == seq!['\u{3000}'] {
        Ok(vm)
    } else {
        spec_eval(spec_classify(w), vm, fuel)
    }
}

/// A word separator: a space, a newline or a carriage return.
pub open spec fn is_separator(c: char) -> bool {
    c == ' ' || c == '\n' || c == '\r'
}

/// Runs the characters of an input text left to right, with `pend` the
/// word accumulated so far: a separator finishes the pending word, any
/// other character extends it, and the end of the text finishes the last
/// word.
pub open spec fn spec_run_chars(s: Seq<char>, pend: Seq<char>, vm: SpecVm) -> Result<
    SpecVm,
    InterpError,
>
    decreases s.len(),
{
    if s.len() == 0 {
        spec_word(pend, vm, EVAL_DEPTH_LIMIT as nat)
    } else if is_separator(s.first()) {
        match spec_word(pend, vm, EVAL_DEPTH_LIMIT as nat) {
            Err(e) => Err(e),
            Ok(vm1) => spec_run_chars(s.drop_first(), Seq::empty(), vm1),
        }
    } else {
        spec_run_chars(s.drop_first(), pend.push(s.first()), vm)
    }
}

/// What processing a whole input text does to the machine.
pub open spec fn spec_run(s: Seq<char>, vm: SpecVm) -> Result<SpecVm, InterpError> {
    spec_run_chars(s, Seq::empty(), vm)
}

/// Classifies one word and evaluates it against the machine, following
/// [`spec_word`].
pub fn parse_word(word: &str, vm: &mut Vm) -> (r: Result<(), InterpError>)
    ensures
        match r {
            Ok(_) => spec_word(word@, old(vm)@, EVAL_DEPTH_LIMIT as nat) == Ok::<
                SpecVm,
                InterpError,
            >(final(vm)@),
            Err(e) => spec_word(word@, old(vm)@, EVAL_DEPTH_LIMIT as nat) == Err::<
                SpecVm,
                InterpError,
            >(e),
        },
{
    let len = word.unicode_len();
    if len == 0 {
        return Ok(());
    }
    if len == 1 && word.get_char(0) == '{' {
        proof {
            assert(word@ =~= seq!['{']);
        }
        vm.blocks.push(Vec::new());
        proof {
            assert(vals_view(vm.blocks@.last()@) =~= Seq::<SpecVal>::empty());
            assert(crate::machine::blocks_view(vm.blocks@) =~= old(vm)@.blocks.push(
                Seq::<SpecVal>::empty(),
            ));
            assert(vm@ =~= (SpecVm {
                blocks: old(vm)@.blocks.push(Seq::<SpecVal>::empty()),
                ..old(vm)@
            }));
        }
        return Ok(());
    }
    if len == 1 && word.get_char(0) == '}' {
        proof {
            assert(word@ =~= seq!['}']);
        }
        let inner = match vm.blocks.pop() {
            Some(b) => b,
            None => return Err(InterpError::MalformedBlock),
        };
        proof {
            assert(vals_view(inner@) == old(vm)@.blocks.last());
            assert(vm@ =~= (SpecVm { blocks: old(vm)@.blocks.drop_last(), ..old(vm)@ }));
        }
        return eval(Value::Block(inner), vm, EVAL_DEPTH_LIMIT);
    }
    if len == 1 && word.get_char(0) == '\u{3000}' {
        proof {
            assert(word@ =~= seq!['\u{3000}']);
        }
        return Ok(());
    }
    proof {
        assert(word@ != seq!['{'] && word@ != seq!['}'] && word@ != seq!['\u{3000}']) by {
            if word@ == seq!['{'] || word@ == seq!['}'] || word@ == seq!['\u{3000}'] {
                assert(word@.len() == 1);
            }
        }
    }
    let code = match parse_i32(word) {
        Some(n) => Value::Num(n),
        None => {
            if word.get_char(0) == '/' {
                Value::Sym(word.substring_char(1, len).to_owned())
            } else {
                Value::Op(word.to_owned())
            }
        },
    };
    proof {
        assert(code@ == spec_classify(word@));
    }
    eval(code, vm, EVAL_DEPTH_LIMIT)
}

/// Processes one chunk of input text: splits it into words at spaces and
/// line breaks and evaluates each word in order, following [`spec_run`].
/// Bindings, stack contents and open blocks persist in the machine from
/// one call to the next, so a session may feed lines one at a time.
pub fn process_line(line: &str, vm: &mut Vm) -> (r: Result<(), InterpError>)
    ensures
        match r {
            Ok(_) => spec_run(line@, old(vm)@) == Ok::<SpecVm, InterpError>(final(vm)@),
            Err(e) => spec_run(line@, old(vm)@) == Err::<SpecVm, InterpError>(e),
        },
{
    let len = line.unicode_len();
    let mut start: usize = 0;
    let mut i: usize = 0;
    proof {
        assert(line@.skip(0) =~= line@);
        assert(line@.subrange(0, 0) =~= Seq::<char>::empty());
    }
    while i < len
        invariant
            start <= i <= len,
            len == line@.len(),
            spec_run(line@, old(vm)@) == spec_run_chars(
                line@.skip(i as int),
                line@.subrange(start as int, i as int),
                vm@,
            ),
        decreases len - i,
    {
        let c = line.get_char(i);
        let ghost rest = line@.skip(i as int);
        let ghost pend = line@.subrange(start as int, i as int);
        proof {
            assert(rest.first() == line@[i as int]);
            assert(rest.drop_first() =~= line@.skip(i as int + 1));
        }
        if c == ' ' || c == '\n' || c == '\r' {
            let w = line.substring_char(start, i);
            proof {
                assert(w@ == pend);
            }
            match parse_word(w, vm) {
                Ok(_) => {},
                Err(e) => {
                    return Err(e);
                },
            }
            start = i + 1;
            proof {
                assert(line@.subrange(start as int, i as int + 1) =~= Seq::<char>::empty());
            }
        } else {
            proof {
                assert(line@.subrange(start as int, i as int + 1) =~= pend.push(line@[i as int]));
            }
        }
        i = i + 1;
    }
    let w = line.substring_char(start, len);
    proof {
        assert(w@ == line@.subrange(start as int, len as int));
        assert(line@.skip(len as int) =~= Seq::<char>::empty());
    }
    parse_word(w, vm)
}

/// Runs a whole program against a fresh machine and hands back the final
/// operand stack, following [`spec_run`] from [`initial_vm`].
pub fn parse_batch(source: &str) -> (r: Result<Vec<Value>, InterpError>)
    ensures
        match spec_run(source@, initial_vm()) {
            Ok(svm) => r matches Ok(stack) && vals_view(stack@) == svm.stack,
            Err(e) => r == Err::<Vec<Value>, InterpError>(e),
        },
{
    let mut vm = Vm::new();
    match process_line(source, &mut vm) {
        Ok(_) => Ok(vm.stack),
        Err(e) => Err(e),
    }
}

} // verus!
