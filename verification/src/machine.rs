//! Machine state: the operand stack, the name bindings, the stack of
//! in-progress block accumulators, and the rendered output.

use crate::value::NativeOp;
use crate::value::SpecVal;
use crate::value::Value;
use crate::value::spec_render;
use crate::value::vals_view;
use vstd::prelude::*;
use vstd::string::StringExecFns;

verus! {

/// Why an evaluation failed.  Every failure is fatal for the current run:
/// the interpreter reports the specific kind and stops processing the
/// remaining input rather than continuing with corrupted state.
#[derive(Clone, Copy, Debug, PartialEq, Eq, Structural)]
pub enum InterpError {
    /// An operand did not have the variant an operator expects.
    TypeMismatch,
    /// A pop was attempted on an empty operand stack.
    StackUnderflow,
    /// An operator name has no binding.
    UndefinedName,
    /// A block-close marker appeared with no open block.
    MalformedBlock,
    /// A division had a zero divisor.
    DivisionByZero,
    /// Evaluation nested more deeply than the explicit recursion bound.
    DepthExceeded,
}

/// The machine state of one session.  It is created once, mutated by every
/// word of every input line, and never copied for computation, so bindings
/// and stack contents persist across lines.
#[derive(Debug)]
pub struct Vm {
    /// The operand stack; the top is the last element.
    pub stack: Vec<Value>,
    /// The name-to-value bindings; a later entry for a name shadows every
    /// earlier one, so pushing an entry is an insert-or-overwrite.
    pub vars: Vec<(String, Value)>,
    /// The in-progress block accumulators, innermost last; empty whenever
    /// the reader is not between a block-open and its matching close.
    pub blocks: Vec<Vec<Value>>,
    /// Everything `puts` has rendered, oldest first.  The surrounding
    /// program decides where this text goes.
    pub output: Vec<String>,
}

/// The mathematical model of machine state.
#[verifier::ext_equal]
pub struct SpecVm {
    pub stack: Seq<SpecVal>,
    pub vars: Map<Seq<char>, SpecVal>,
    pub blocks: Seq<Seq<SpecVal>>,
    pub output: Seq<Seq<char>>,
}

/// The bindings a list of entries denotes: a later entry overwrites an
/// earlier one with the same name.
pub open spec fn bindings_map(entries: Seq<(String, Value)>) -> Map<Seq<char>, SpecVal>
    decreases entries.len(),
{
    if entries.len() == 0 {
        Map::empty()
    } else {
        bindings_map(entries.drop_last()).insert(entries.last().0@, entries.last().1@)
    }
}

/// The model of the block-accumulator stack.
pub open spec fn blocks_view(blocks: Seq<Vec<Value>>) -> Seq<Seq<SpecVal>> {
    Seq::new(blocks.len(), |i: int| vals_view(blocks[i]@))
}

/// The model of the rendered output.
pub open spec fn output_view(output: Seq<String>) -> Seq<Seq<char>> {
    Seq::new(output.len(), |i: int| output[i]@)
}

/// The diagnostic text of a whole stack: each value rendered, deepest
/// first, separated by single spaces.
pub open spec fn spec_render_stack(stack: Seq<SpecVal>) -> Seq<char>
    decreases stack.len(),
{
    if stack.len() == 0 {
        Seq::empty()
    } else if stack.len() == 1 {
        spec_render(stack[0])
    } else {
        spec_render_stack(stack.drop_last()) + seq![' '] + spec_render(stack.last())
    }
}

impl View for Vm {
    type V = SpecVm;

    open spec fn view(&self) -> SpecVm {
        SpecVm {
            stack: vals_view(self.stack@),
            vars: bindings_map(self.vars@),
            blocks: blocks_view(self.blocks@),
            output: output_view(self.output@),
        }
    }
}

/// The bindings every session starts from: each built-in operator name
/// bound to its native procedure.
pub open spec fn initial_bindings() -> Map<Seq<char>, SpecVal> {
    Map::empty()
        .insert("+"@, SpecVal::Native(NativeOp::Add))
        .insert("-"@, SpecVal::Native(NativeOp::Sub))
        .insert("*"@, SpecVal::Native(NativeOp::Mul))
        .insert("/"@, SpecVal::Native(NativeOp::Div))
        .insert("<"@, SpecVal::Native(NativeOp::Lt))
        .insert("if"@, SpecVal::Native(NativeOp::If))
        .insert("def"@, SpecVal::Native(NativeOp::Def))
        .insert("puts"@, SpecVal::Native(NativeOp::Puts))
        .insert("dup"@, SpecVal::Native(NativeOp::Dup))
        .insert("exch"@, SpecVal::Native(NativeOp::Exch))
}

/// The machine state every session starts from: empty stack, empty block
/// accumulators, no output, and only the built-in bindings.
pub open spec fn initial_vm() -> SpecVm {
    SpecVm {
        stack: Seq::empty(),
        vars: initial_bindings(),
        blocks: Seq::empty(),
        output: Seq::empty(),
    }
}

proof fn lemma_bindings_map_found(entries: Seq<(String, Value)>, name: Seq<char>, i: int)
    requires
        0 <= i < entries.len(),
        entries[i].0@ == name,
        forall|j: int| i < j < entries.len() ==> entries[j].0@ != name,
    ensures
        bindings_map(entries).contains_key(name),
        bindings_map(entries)[name] == entries[i].1@,
    decreases entries.len(),
{
    if i == entries.len() - 1 {
    } else {
        lemma_bindings_map_found(entries.drop_last(), name, i);
    }
}

proof fn lemma_bindings_map_absent(entries: Seq<(String, Value)>, name: Seq<char>)
    requires
        forall|j: int| 0 <= j < entries.len() ==> entries[j].0@ != name,
    ensures
        !bindings_map(entries).contains_key(name),
    decreases entries.len(),
{
    if entries.len() > 0 {
        lemma_bindings_map_absent(entries.drop_last(), name);
    }
}

impl Vm {
    /// A fresh machine: empty stack and accumulators, and every built-in
    /// operator name bound to its native procedure.
    pub fn new() -> (vm: Vm)
        ensures
            vm@ == initial_vm(),
    {
        let mut vars: Vec<(String, Value)> = Vec::new();
        vars.push((String::from_str("+"), Value::Native(NativeOp::Add)));
        vars.push((String::from_str("-"), Value::Native(NativeOp::Sub)));
        vars.push((String::from_str("*"), Value::Native(NativeOp::Mul)));
        vars.push((String::from_str("/"), Value::Native(NativeOp::Div)));
        vars.push((String::from_str("<"), Value::Native(NativeOp::Lt)));
        vars.push((String::from_str("if"), Value::Native(NativeOp::If)));
        vars.push((String::from_str("def"), Value::Native(NativeOp::Def)));
        vars.push((String::from_str("puts"), Value::Native(NativeOp::Puts)));
        vars.push((String::from_str("dup"), Value::Native(NativeOp::Dup)));
        vars.push((String::from_str("exch"), Value::Native(NativeOp::Exch)));
        let vm = Vm { stack: Vec::new(), vars, blocks: Vec::new(), output: Vec::new() };
        proof {
            assert(vm@.vars == initial_bindings()) by {
                reveal_with_fuel(bindings_map, 11);
            }
            assert(vm@.stack =~= Seq::<SpecVal>::empty());
            assert(vm@.blocks =~= Seq::<Seq<SpecVal>>::empty());
            assert(vm@.output =~= Seq::<Seq<char>>::empty());
            assert(vm@ =~= initial_vm());
        }
        vm
    }

    /// Looks a name up in the bindings and hands back a copy of the newest
    /// value stored under it, if any.
    pub fn lookup(&self, name: &String) -> (r: Option<Value>)
        ensures
            match r {
                Some(v) => self@.vars.contains_key(name@) && v@ == self@.vars[name@],
                None => !self@.vars.contains_key(name@),
            },
    {
        let mut i: usize = self.vars.len();
        while i > 0
            invariant
                i <= self.vars@.len(),
                forall|j: int| i <= j < self.vars@.len() ==> self.vars@[j].0@ != name@,
            decreases i,
        {
            i = i - 1;
            if self.vars[i].0 == *name {
                let v = self.vars[i].1.clone();
                proof {
                    lemma_bindings_map_found(self.vars@, name@, i as int);
                }
                return Some(v);
            }
        }
        proof {
            lemma_bindings_map_absent(self.vars@, name@);
        }
        None
    }

    /// Inserts or overwrites a binding.
    pub fn insert_binding(&mut self, name: String, value: Value)
        ensures
            final(self)@ == (SpecVm { vars: old(self)@.vars.insert(name@, value@), ..old(self)@ }),
    {
        let ghost pre = self.vars@;
        self.vars.push((name, value));
        proof {
            assert(self.vars@.drop_last() =~= pre);
            assert(self@ =~= (SpecVm { vars: old(self)@.vars.insert(name@, value@), ..old(self)@ }));
        }
    }

    /// Pops the top of the operand stack; an empty stack is a
    /// stack-underflow failure, never a silent no-op.
    pub fn pop_value(&mut self) -> (r: Result<Value, InterpError>)
        ensures
            match r {
                Ok(v) => old(self)@.stack.len() > 0 && v@ == old(self)@.stack.last()
                    && final(self)@ == (SpecVm {
                    stack: old(self)@.stack.drop_last(),
                    ..old(self)@
                }),
                Err(e) => e == InterpError::StackUnderflow && old(self)@.stack.len() == 0
                    && final(self)@ == old(self)@,
            },
    {
        let ghost pre = self.stack@;
        match self.stack.pop() {
            Some(v) => {
                proof {
                    assert(vals_view(self.stack@) =~= vals_view(pre).drop_last());
                    assert(self@ =~= (SpecVm { stack: old(self)@.stack.drop_last(), ..old(self)@ }));
                }
                Ok(v)
            },
            None => Err(InterpError::StackUnderflow),
        }
    }

    /// Renders the operand stack as diagnostic text, deepest value first,
    /// one space between values.
    pub fn render_stack(&self) -> (r: String)
        ensures
            r@ == spec_render_stack(self@.stack),
    {
        let mut out = String::new();
        let mut i: usize = 0;
        proof {
            assert(self@.stack.subrange(0, 0) =~= Seq::<SpecVal>::empty());
        }
        while i < self.stack.len()
            invariant
                i <= self.stack@.len(),
                out@ == spec_render_stack(self@.stack.subrange(0, i as int)),
            decreases self.stack@.len() - i,
        {
            if i > 0 {
                out.append(" ");
                proof {
                    reveal_strlit(" ");
                }
            }
            let text = self.stack[i].to_string();
            out.append(text.as_str());
            proof {
                let pre = self@.stack.subrange(0, i as int);
                let cur = self@.stack.subrange(0, i as int + 1);
                assert(cur.drop_last() =~= pre);
                assert(cur.last() == self@.stack[i as int]);
                if i > 0 {
                    assert(out@ =~= spec_render_stack(pre) + seq![' '] + spec_render(
                        self@.stack[i as int],
                    ));
                } else {
                    assert(out@ =~= spec_render(self@.stack[i as int]));
                }
            }
            i = i + 1;
        }
        proof {
            assert(self@.stack.subrange(0, self.stack@.len() as int) =~= self@.stack);
        }
        out
    }

    /// Appends rendered text to the output.
    pub fn push_output(&mut self, text: String)
        ensures
            final(self)@ == (SpecVm { output: old(self)@.output.push(text@), ..old(self)@ }),
    {
        let ghost pre = self.output@;
        let ghost t = text@;
        self.output.push(text);
        proof {
            assert(output_view(self.output@) =~= output_view(pre).push(t));
            assert(self@ =~= (SpecVm { output: old(self)@.output.push(t), ..old(self)@ }));
        }
    }

    /// Pushes a value onto the operand stack.
    pub fn push_value(&mut self, v: Value)
        ensures
            final(self)@ == (SpecVm { stack: old(self)@.stack.push(v@), ..old(self)@ }),
    {
        let ghost pre = self.stack@;
        let ghost sv = v@;
        self.stack.push(v);
        proof {
            assert(vals_view(self.stack@) =~= vals_view(pre).push(sv));
            assert(self@ =~= (SpecVm { stack: old(self)@.stack.push(sv), ..old(self)@ }));
        }
    }
}

} // verus!
