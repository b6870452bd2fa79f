//! The value model: the tagged representation of every runtime entity.

use crate::numerals::num_text;
use crate::numerals::text_of_i32;
use vstd::prelude::*;
use vstd::string::StringExecFns;

verus! {

/// Names one of the interpreter's built-in procedures.  A native procedure is
/// identified by which built-in it denotes: two native values are equal
/// exactly when they name the same built-in.
#[derive(Clone, Copy, Debug, PartialEq, Eq, Structural)]
pub enum NativeOp {
    Add,
    Sub,
    Mul,
    Div,
    Lt,
    If,
    Def,
    Puts,
    Dup,
    Exch,
}

/// A runtime value.
///
/// A `Block` holds deferred, unevaluated code: its contents are evaluated
/// only when something explicitly iterates them (conditional branches and
/// bound-block invocation), never implicitly.
#[derive(Debug, PartialEq, Eq)]
pub enum Value {
    /// A signed 32-bit integer.
    Num(i32),
    /// An operator name, resolved and acted on immediately when evaluated
    /// outside a block.
    Op(String),
    /// A name produced by the leading marker character `/`, used as a
    /// binding target.
    Sym(String),
    /// An ordered sequence of deferred values; may contain nested blocks.
    Block(Vec<Value>),
    /// A built-in procedure.
    Native(NativeOp),
}

/// The mathematical model of a [`Value`]: numbers stay machine integers,
/// names become character sequences, block contents become sequences of
/// modelled values.
#[verifier::ext_equal]
pub enum SpecVal {
    Num(i32),
    Op(Seq<char>),
    Sym(Seq<char>),
    Block(Seq<SpecVal>),
    Native(NativeOp),
}

impl View for Value {
    type V = SpecVal;

    open spec fn view(&self) -> SpecVal
        decreases self,
    {
        match self {
            Value::Num(n) => SpecVal::Num(*n),
            Value::Op(s) => SpecVal::Op(s@),
            Value::Sym(s) => SpecVal::Sym(s@),
            Value::Block(items) => SpecVal::Block(vals_view(items@)),
            Value::Native(p) => SpecVal::Native(*p),
        }
    }
}

/// The model of a sequence of values, element by element.  The bounds check
/// in the closure keeps the recursion on an actual element of the sequence,
/// which is what the termination measure needs; an out-of-range index is
/// never observed.
pub open spec fn vals_view(items: Seq<Value>) -> Seq<SpecVal>
    decreases items,
{
    Seq::new(
        items.len(),
        |i: int|
            if 0 <= i < items.len() {
                items[i]@
            } else {
                vstd::pervasive::arbitrary()
            },
    )
}

/// The diagnostic text of a value: decimal digits for a number, the name for
/// an operator or symbol, an opaque placeholder for a block or a native
/// procedure.
pub open spec fn spec_render(v: SpecVal) -> Seq<char> {
    match v {
        SpecVal::Num(n) => text_of_i32(n),
        SpecVal::Op(s) => s,
        SpecVal::Sym(s) => s,
        SpecVal::Block(_) => "<Block>"@,
        SpecVal::Native(_) => "<Native>"@,
    }
}

impl Clone for Value {
    /// A deep copy: the copy has the same model as the original.
    #[verifier::loop_isolation(false)]
    fn clone(&self) -> (r: Self)
        ensures
            r@ == self@,
        decreases self,
    {
        match self {
            Value::Num(n) => Value::Num(*n),
            Value::Op(s) => Value::Op(s.clone()),
            Value::Sym(s) => Value::Sym(s.clone()),
            Value::Block(items) => {
                let mut copied: Vec<Value> = Vec::new();
                let mut i: usize = 0;
                while i < items.len()
                    invariant
                        i <= items.len(),
                        copied@.len() == i as int,
                        forall|j: int| 0 <= j < i as int ==> copied@[j]@ == items@[j]@,
                    decreases items.len() - i,
                {
                    proof {
                        assert(decreases_to!(items => items[i as int]));
                    }
                    copied.push(items[i].clone());
                    i = i + 1;
                }
                proof {
                    assert(vals_view(copied@) =~= vals_view(items@));
                }
                Value::Block(copied)
            },
            Value::Native(p) => Value::Native(*p),
        }
    }
}

impl Value {
    /// The number a `Num` holds.  The caller must already know the value is
    /// a number; evaluation checks the variant first and reports a type
    /// mismatch itself.
    pub fn as_num(&self) -> (n: i32)
        requires
            self@ is Num,
        ensures
            self@ == SpecVal::Num(n),
    {
        match self {
            Value::Num(n) => *n,
            _ => vstd::pervasive::unreached(),
        }
    }

    /// The contents of a `Block`, surrendered by value.
    pub fn to_block(self) -> (items: Vec<Value>)
        requires
            self@ is Block,
        ensures
            self@ == SpecVal::Block(vals_view(items@)),
    {
        match self {
            Value::Block(items) => {
                proof {
                    assert(vals_view(items@) =~= self@->Block_0);
                }
                items
            },
            _ => vstd::pervasive::unreached(),
        }
    }

    /// Renders the value as text: a number as its decimal digits, an
    /// operator or symbol as its name, a block or native procedure as an
    /// opaque placeholder rather than its contents.
    pub fn to_string(&self) -> (r: String)
        ensures
            r@ == spec_render(self@),
    {
        match self {
            Value::Num(n) => num_text(*n),
            Value::Op(s) => s.clone(),
            Value::Sym(s) => s.clone(),
            Value::Block(_) => String::from_str("<Block>"),
            Value::Native(_) => String::from_str("<Native>"),
        }
    }

    /// The name a `Sym` holds.
    pub fn as_sym(&self) -> (s: &str)
        requires
            self@ is Sym,
        ensures
            self@ == SpecVal::Sym(s@),
    {
        match self {
            Value::Sym(s) => s.as_str(),
            _ => vstd::pervasive::unreached(),
        }
    }
}

} // verus!
