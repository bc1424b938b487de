//! Provides the functions available in the calculator.
//!
//! This module declares the `Function` record (name, signature,
//! native implementation), the registry that maps names to the
//! built-in functions, and the seam through which native
//! implementations are supplied.

use crate::value::{Type, Value};
use vstd::prelude::*;

verus! {

/// The type signature of a function.
///
/// The zeroth element is the inputs, or arguments, of the function,
/// in bottom-to-top consumption order from the stack. There can be
/// zero or more inputs.
///
/// The first element is the outputs; the current design allows
/// exactly one.
pub type Signature = (Vec<Type>, Vec<Type>);

/// The result every native implementation returns.
///
/// It is optimized for functions that return single values; the
/// variant set is the contract each implementation must honor.
#[derive(Clone, Copy, PartialEq, Eq, Structural, Debug)]
pub enum FunctionResult {
    /// Exactly one scalar value.
    Scalar(Value),
}

/// The seam between the verified application protocol and the native
/// implementations of the calculator's functions.
///
/// Nothing is assumed about `invoke`: the application protocol
/// validates the returned value against the declared signature at
/// run time, so a misbehaving implementation is reported, never
/// trusted. The seam is what later revisions can use for
/// user-defined functions.
pub trait NativeImpl {
    /// Compute the function on the borrowed argument values, the
    /// deepest-consumed argument first.
    fn invoke(&self, args: &[Value]) -> FunctionResult;
}

/// The identity of a function: its name and signature, as plain
/// mathematical sequences. The implementation handle is not part of
/// the identity.
#[verifier::ext_equal]
pub ghost struct FunctionView {
    pub name: Seq<char>,
    pub inputs: Seq<Type>,
    pub outputs: Seq<Type>,
}

/// The type of a function available in the calculator.
///
/// The `Function` knows the number and type of its arguments, if it
/// takes any. It also states its return type, which will be enforced
/// by the application protocol.
pub struct Function<I> {
    pub name: String,
    pub signature: Signature,
    pub implementation: I,
}

impl<I> View for Function<I> {
    type V = FunctionView;

    open spec fn view(&self) -> FunctionView {
        FunctionView {
            name: self.name@,
            inputs: self.signature.0@,
            outputs: self.signature.1@,
        }
    }
}

impl<I> Function<I> {
    /// Create a new function with the provided human-readable name,
    /// type signature, and backing implementation.
    pub fn new(name: String, signature: Signature, implementation: I) -> (r: Function<I>)
        ensures
            r.name == name,
            r.signature == signature,
            r.implementation == implementation,
    {
        Function { name, signature, implementation }
    }
}

/// Compares two type sequences element by element.
fn type_vec_eq(a: &Vec<Type>, b: &Vec<Type>) -> (r: bool)
    ensures
        r == (a@ == b@),
{
    if a.len() != b.len() {
        assert(a@ != b@);
        return false;
    }
    let mut i: usize = 0;
    while i < a.len()
        invariant
            i <= a@.len(),
            a@.len() == b@.len(),
            forall|j: int| 0 <= j < i ==> a@[j] == b@[j],
        decreases a@.len() - i,
    {
        if a[i] != b[i] {
            return false;
        }
        i = i + 1;
    }
    assert(a@ =~= b@);
    true
}

// Two functions are considered equal iff name and signature match;
// the implementation handle is not compared, because distinct
// handles computing the same mathematical function are
// interchangeable.
impl<I> PartialEq for Function<I> {
    fn eq(&self, other: &Self) -> (r: bool) {
        self.name == other.name && type_vec_eq(&self.signature.0, &other.signature.0)
            && type_vec_eq(&self.signature.1, &other.signature.1)
    }
}

impl<I> vstd::std_specs::cmp::PartialEqSpecImpl for Function<I> {
    open spec fn obeys_eq_spec() -> bool {
        true
    }

    open spec fn eq_spec(&self, other: &Self) -> bool {
        self@ == other@
    }
}

/// First-match lookup over a sequence of function identities.
pub open spec fn spec_lookup(reg: Seq<FunctionView>, name: Seq<char>) -> Option<FunctionView>
    decreases reg.len(),
{
    if reg.len() == 0 {
        None
    } else if reg[0].name == name {
        Some(reg[0])
    } else {
        spec_lookup(reg.drop_first(), name)
    }
}

/// The immutable name-to-function table.
///
/// It is populated once, before any lookup, and exposes no
/// insertion, removal, or override operation afterwards; lookups are
/// pure queries.
pub struct Registry<I> {
    funs: Vec<Function<I>>,
}

impl<I> View for Registry<I> {
    type V = Seq<FunctionView>;

    closed spec fn view(&self) -> Seq<FunctionView> {
        self.funs@.map_values(|f: Function<I>| f@)
    }
}

impl<I> Registry<I> {
    /// Look a function up by name.
    ///
    /// Absence is not an error at this layer; it is surfaced by the
    /// caller as an unrecognized-token condition.
    pub fn lookup<'a>(&'a self, name: &str) -> (r: Option<&'a Function<I>>)
        ensures
            match r {
                Some(f) => spec_lookup(self@, name@) == Some(f@),
                None => spec_lookup(self@, name@) is None,
            },
    {
        let key = String::from_str(name);
        proof {
            assert(self@.subrange(0, self@.len() as int) =~= self@);
        }
        let mut i: usize = 0;
        while i < self.funs.len()
            invariant
                i <= self.funs@.len(),
                key@ == name@,
                self@ == self.funs@.map_values(|f: Function<I>| f@),
                self@.len() == self.funs@.len(),
                spec_lookup(self@, name@) == spec_lookup(
                    self@.subrange(i as int, self@.len() as int),
                    name@,
                ),
            decreases self.funs@.len() - i,
        {
            proof {
                assert(self@.subrange(i as int, self@.len() as int).len() > 0);
                assert(self@.subrange(i as int, self@.len() as int)[0] == self@[i as int]);
                assert(self@.subrange(i as int, self@.len() as int).drop_first() =~= self@
                    .subrange(i + 1, self@.len() as int));
            }
            if self.funs[i].name == key {
                return Some(&self.funs[i]);
            }
            i = i + 1;
        }
        proof {
            assert(self@.subrange(self@.len() as int, self@.len() as int).len() == 0);
        }
        None
    }
}

/// Two lookups of the same name in the same registry yield functions
/// with the same identity: the same name and the same signature.
pub proof fn lemma_lookup_deterministic(
    reg: Seq<FunctionView>,
    name: Seq<char>,
    f1: FunctionView,
    f2: FunctionView,
)
    requires
        spec_lookup(reg, name) == Some(f1),
        spec_lookup(reg, name) == Some(f2),
    ensures
        f1 == f2,
        f1.name == f2.name,
        f1.inputs == f2.inputs,
        f1.outputs == f2.outputs,
{
}

/// The identity of a unary function: one input, one output.
pub open spec fn unary_view(name: Seq<char>, arg: Type, out: Type) -> FunctionView {
    FunctionView { name, inputs: seq![arg], outputs: seq![out] }
}

/// The names and signatures of the intrinsic built-in functions, in
/// registration order.
pub open spec fn intrinsic_table() -> Seq<FunctionView> {
    seq![
        unary_view("inc"@, Type::Int32, Type::Int32),
        unary_view("dec"@, Type::Int32, Type::Int32),
        unary_view("recip"@, Type::Float64, Type::Float64),
        unary_view("sqrt"@, Type::Float64, Type::Float64),
        unary_view("cbrt"@, Type::Float64, Type::Float64),
        unary_view("exp"@, Type::Float64, Type::Float64),
        unary_view("ln"@, Type::Float64, Type::Float64),
        unary_view("sin"@, Type::Float64, Type::Float64),
        unary_view("cos"@, Type::Float64, Type::Float64),
        unary_view("tan"@, Type::Float64, Type::Float64),
        unary_view("csc"@, Type::Float64, Type::Float64),
        unary_view("sec"@, Type::Float64, Type::Float64),
        unary_view("cot"@, Type::Float64, Type::Float64),
        unary_view("asin"@, Type::Float64, Type::Float64),
        unary_view("acos"@, Type::Float64, Type::Float64),
        unary_view("atan"@, Type::Float64, Type::Float64),
    ]
}

/// A one-input, one-output signature.
fn unary_signature(arg: Type, out: Type) -> (r: Signature)
    ensures
        r.0@ == seq![arg],
        r.1@ == seq![out],
{
    let mut inputs: Vec<Type> = Vec::new();
    inputs.push(arg);
    let mut outputs: Vec<Type> = Vec::new();
    outputs.push(out);
    assert(inputs@ =~= seq![arg]);
    assert(outputs@ =~= seq![out]);
    (inputs, outputs)
}

/// Build the registry of intrinsic built-in functions.
///
/// The caller supplies one native implementation per entry of
/// `intrinsic_table`, in that order; the names and signatures the
/// registry ends up with are fixed by this module, so the same set
/// of names maps to the same signatures on every start.
/// Register one unary intrinsic: take the next implementation from
/// `rest` and append the finished entry to `funs`.
fn add_intrinsic<I: NativeImpl>(
    funs: &mut Vec<Function<I>>,
    rest: &mut Vec<I>,
    name: &str,
    arg: Type,
)
    requires
        old(rest)@.len() > 0,
    ensures
        final(funs)@.len() == old(funs)@.len() + 1,
        final(funs)@.last()@ == unary_view(name@, arg, arg),
        forall|j: int| 0 <= j < old(funs)@.len() ==> final(funs)@[j] == old(funs)@[j],
        final(rest)@ == old(rest)@.drop_first(),
{
    let imp = rest.remove(0);
    let f = Function::new(String::from_str(name), unary_signature(arg, arg), imp);
    proof {
        assert(f@ =~= unary_view(name@, arg, arg));
        assert(final(rest)@ =~= old(rest)@.drop_first());
    }
    funs.push(f);
}

/// Build the registry of intrinsic built-in functions.
///
/// The caller supplies one native implementation per entry of
/// `intrinsic_table`, in that order; the names and signatures the
/// registry ends up with are fixed by this module, so the same set
/// of names maps to the same signatures on every start.
pub fn intrinsic_fns<I: NativeImpl>(impls: Vec<I>) -> (r: Registry<I>)
    requires
        impls@.len() == intrinsic_table().len(),
    ensures
        r@ == intrinsic_table(),
{
    let mut rest = impls;
    let mut funs: Vec<Function<I>> = Vec::new();

    // Integer operations
    add_intrinsic(&mut funs, &mut rest, "inc", Type::Int32);
    add_intrinsic(&mut funs, &mut rest, "dec", Type::Int32);
    // Algebraic
    add_intrinsic(&mut funs, &mut rest, "recip", Type::Float64);
    add_intrinsic(&mut funs, &mut rest, "sqrt", Type::Float64);
    add_intrinsic(&mut funs, &mut rest, "cbrt", Type::Float64);
    // Exponential & logarithmic
    add_intrinsic(&mut funs, &mut rest, "exp", Type::Float64);
    add_intrinsic(&mut funs, &mut rest, "ln", Type::Float64);
    // Trigonometry
    add_intrinsic(&mut funs, &mut rest, "sin", Type::Float64);
    add_intrinsic(&mut funs, &mut rest, "cos", Type::Float64);
    add_intrinsic(&mut funs, &mut rest, "tan", Type::Float64);
    // Trigonometry - reciprocals
    add_intrinsic(&mut funs, &mut rest, "csc", Type::Float64);
    add_intrinsic(&mut funs, &mut rest, "sec", Type::Float64);
    add_intrinsic(&mut funs, &mut rest, "cot", Type::Float64);
    // Trigonometry - principal inverses
    add_intrinsic(&mut funs, &mut rest, "asin", Type::Float64);
    add_intrinsic(&mut funs, &mut rest, "acos", Type::Float64);
    add_intrinsic(&mut funs, &mut rest, "atan", Type::Float64);

    let r = Registry { funs };
    proof {
        assert(r@ =~~= intrinsic_table());
    }
    r
}

/// Incrementing a 32-bit integer, wrapping at the upper boundary.
pub open spec fn spec_inc(x: i32) -> i32 {
    if x == i32::MAX {
        i32::MIN
    } else {
        (x + 1) as i32
    }
}

/// Decrementing a 32-bit integer, wrapping at the lower boundary.
pub open spec fn spec_dec(x: i32) -> i32 {
    if x == i32::MIN {
        i32::MAX
    } else {
        (x - 1) as i32
    }
}

/// Native implementation of `inc`: one integer in, its successor
/// out.
pub fn inc_impl(args: &[Value]) -> (r: FunctionResult)
    requires
        args@.len() == 1,
        args@[0] is Int32,
    ensures
        r == FunctionResult::Scalar(Value::Int32(spec_inc(args@[0]->Int32_0))),
{
    let v: Value = args[0];
    match v {
        Value::Int32(x) => {
            let y = if x == i32::MAX {
                i32::MIN
            } else {
                x + 1
            };
            FunctionResult::Scalar(Value::Int32(y))
        },
        _ => {
            proof {
                assert(false);
            }
            FunctionResult::Scalar(v)
        },
    }
}

/// Native implementation of `dec`: one integer in, its predecessor
/// out.
pub fn dec_impl(args: &[Value]) -> (r: FunctionResult)
    requires
        args@.len() == 1,
        args@[0] is Int32,
    ensures
        r == FunctionResult::Scalar(Value::Int32(spec_dec(args@[0]->Int32_0))),
{
    let v: Value = args[0];
    match v {
        Value::Int32(x) => {
            let y = if x == i32::MIN {
                i32::MAX
            } else {
                x - 1
            };
            FunctionResult::Scalar(Value::Int32(y))
        },
        _ => {
            proof {
                assert(false);
            }
            FunctionResult::Scalar(v)
        },
    }
}

} // verus!
