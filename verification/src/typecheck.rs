//! Rudimentary type-checking.
//!
//! The calculator uses a dynamic, but strong, type system. This
//! module provides the dynamic checking facility: the validate,
//! invoke, then commit protocol that applies a function to the
//! stack, leaving the stack untouched on every failure.

use crate::functions::{Function, FunctionResult, NativeImpl};
use crate::stack::Stack;
use crate::value::{Type, Value};
use vstd::prelude::*;

verus! {

/// Represents various kinds of type errors.
#[derive(Clone, Copy, PartialEq, Eq, Structural, Debug)]
pub enum TypeError {
    /// Arises when the stack is too small to call the function.
    WrongArity,

    /// Arises when the values on the stack are of the wrong type.
    TypeMismatch,

    /// Arises when the function returns a value of an incorrect
    /// type.
    BrokenCallee,
}

/// True iff the top `inputs.len()` values of the stack match the
/// declared input types: signature position `i` corresponds to the
/// value at depth `inputs.len() - i - 1`, so input position 0 is the
/// deepest-consumed value and the last input position is the top.
pub open spec fn args_match(stack: Seq<Value>, inputs: Seq<Type>) -> bool {
    forall|i: int|
        0 <= i < inputs.len() ==> #[trigger] stack[stack.len() - inputs.len() + i].spec_matches(
            inputs[i],
        )
}

/// Validate a callee's result against the declared output type and
/// commit it: remove the `arity` consumed arguments and push the
/// returned value as one atomic mutation, or report `BrokenCallee`
/// and leave the stack exactly as it was.
///
/// This is the final phase of the application protocol, factored
/// out so that what happens to each possible returned value is
/// fixed by a contract: a matching value is pushed — that exact
/// value, nothing else — and a mismatching one is discarded.
pub fn commit_result(
    stack: &mut Stack,
    arity: usize,
    output: &Type,
    result: FunctionResult,
) -> (r: Result<(), TypeError>)
    requires
        arity <= old(stack)@.len(),
    ensures
        match result {
            FunctionResult::Scalar(v) => {
                &&& v.spec_matches(*output) ==> r == Ok::<(), TypeError>(()) && final(stack)@
                    == old(stack)@.subrange(0, old(stack)@.len() - arity).push(v)
                &&& !v.spec_matches(*output) ==> r == Err::<(), TypeError>(
                    TypeError::BrokenCallee,
                ) && final(stack)@ == old(stack)@
            },
        },
{
    let val = match result {
        FunctionResult::Scalar(val) => {
            if !val.matches(output) {
                return Err(TypeError::BrokenCallee);
            }
            val
        },
    };
    stack.chop_n(arity);
    stack.push(val);
    Ok(())
}

/// Apply the function to the stack, if possible.
///
/// The protocol is fail-fast and all-or-nothing: the arity check,
/// then every per-argument type check, happen against a borrowed
/// view of the stack; the implementation is invoked on that borrowed
/// view, and `commit_result` validates the returned value against
/// the declared output type before the one atomic mutation, so on
/// every failure the stack is exactly as it was. What this
/// function's own contract cannot say — that the committed value is
/// the very value the implementation returned — is fixed by the
/// contract of `commit_result`, which the returned result is handed
/// to unchanged.
pub fn checked_apply<I: NativeImpl>(fun: &Function<I>, stack: &mut Stack) -> (r: Result<
    (),
    TypeError,
>)
    requires
        // Functions can only return one scalar, and must do so; a
        // registry entry that says otherwise is malformed.
        fun@.outputs.len() == 1,
    ensures
        match r {
            Ok(()) => {
                let h = old(stack)@.len();
                let k = fun@.inputs.len();
                &&& k <= h
                &&& args_match(old(stack)@, fun@.inputs)
                &&& final(stack)@.len() == h - k + 1
                &&& final(stack)@.subrange(0, h - k) == old(stack)@.subrange(0, h - k)
                &&& final(stack)@.last().spec_matches(fun@.outputs[0])
            },
            Err(TypeError::WrongArity) => {
                &&& fun@.inputs.len() > old(stack)@.len()
                &&& final(stack)@ == old(stack)@
            },
            Err(TypeError::TypeMismatch) => {
                &&& fun@.inputs.len() <= old(stack)@.len()
                &&& !args_match(old(stack)@, fun@.inputs)
                &&& final(stack)@ == old(stack)@
            },
            Err(TypeError::BrokenCallee) => {
                &&& fun@.inputs.len() <= old(stack)@.len()
                &&& args_match(old(stack)@, fun@.inputs)
                &&& final(stack)@ == old(stack)@
            },
        },
        fun@.inputs.len() > old(stack)@.len() ==> r == Err::<(), TypeError>(TypeError::WrongArity),
        fun@.inputs.len() <= old(stack)@.len() && !args_match(old(stack)@, fun@.inputs) ==> r
            == Err::<(), TypeError>(TypeError::TypeMismatch),
{
    // First, check the arity of the function. It needs to be less
    // than or equal to the stack height.
    let arity = fun.signature.0.len();
    if arity > stack.height() {
        return Err(TypeError::WrongArity);
    }
    let ghost h = stack@.len();

    // Now, check the types of the function arguments against the
    // values on the stack.
    let mut idx: usize = 0;
    while idx < arity
        invariant
            idx <= arity,
            arity == fun@.inputs.len(),
            arity <= stack@.len(),
            stack@ == old(stack)@,
            fun@.outputs.len() == 1,
            forall|j: int|
                0 <= j < idx ==> #[trigger] stack@[stack@.len() - arity + j].spec_matches(
                    fun@.inputs[j],
                ),
        decreases arity - idx,
    {
        if !stack.peek_n(arity - idx - 1).matches(&fun.signature.0[idx]) {
            proof {
                assert(!stack@[stack@.len() - arity + idx].spec_matches(fun@.inputs[idx as int]));
            }
            return Err(TypeError::TypeMismatch);
        }
        idx = idx + 1;
    }

    // The argument types match; borrow the arguments and run the
    // implementation on them.
    let fun_result = if arity == 0 {
        let no_args: Vec<Value> = Vec::new();
        fun.implementation.invoke(no_args.as_slice())
    } else {
        fun.implementation.invoke(stack.slice_n(arity - 1))
    };

    // Make sure the function returned what it said it would, and
    // only then mutate the stack.
    let r = commit_result(stack, arity, &fun.signature.1[0], fun_result);
    proof {
        if r is Ok {
            assert(stack@.subrange(0, h - arity) =~= old(stack)@.subrange(0, h - arity));
        }
    }
    r
}

} // verus!
