//! Stack-level logical operators on boolean values.
use vstd::prelude::*;
use crate::stack::{binop_step, unop_step, Stack};
use crate::types::{abs_and, abs_not, abs_or, AbsValue, Error};

verus! {


/// What `&&` does to the stack.
pub open spec fn and_step(s: Seq<AbsValue>) -> (Seq<AbsValue>, Result<(), Error>) {
    binop_step(s, |a: AbsValue, b: AbsValue| abs_and(a, b))
}

/// What `||` does to the stack.
pub open spec fn or_step(s: Seq<AbsValue>) -> (Seq<AbsValue>, Result<(), Error>) {
    binop_step(s, |a: AbsValue, b: AbsValue| abs_or(a, b))
}

/// What `not` does to the stack.
pub open spec fn not_step(s: Seq<AbsValue>) -> (Seq<AbsValue>, Result<(), Error>) {
    unop_step(s, |a: AbsValue| abs_not(a))
}

/// The `&&` operator.
pub fn and(stack: &mut Stack) -> (r: Result<(), Error>)
    ensures
        ({
            let (s2, rr) = and_step(old(stack)@);
            final(stack)@ == s2 && r == rr
        }),
{
    let b = stack.pop()?;
    let a = stack.pop()?;
    proof {
        assert(old(stack)@.drop_last().drop_last() =~= old(stack)@.take(old(stack)@.len() - 2));
    }
    match a.and(b) {
        Result::Ok(v) => {
            stack.push(v);
            Result::Ok(())
        },
        Result::Err(e) => Result::Err(e),
    }
}

/// The `||` operator.
pub fn or(stack: &mut Stack) -> (r: Result<(), Error>)
    ensures
        ({
            let (s2, rr) = or_step(old(stack)@);
            final(stack)@ == s2 && r == rr
        }),
{
    let b = stack.pop()?;
    let a = stack.pop()?;
    proof {
        assert(old(stack)@.drop_last().drop_last() =~= old(stack)@.take(old(stack)@.len() - 2));
    }
    match a.or(b) {
        Result::Ok(v) => {
            stack.push(v);
            Result::Ok(())
        },
        Result::Err(e) => Result::Err(e),
    }
}

/// The `not` operator.
pub fn not(stack: &mut Stack) -> (r: Result<(), Error>)
    ensures
        ({
            let (s2, rr) = not_step(old(stack)@);
            final(stack)@ == s2 && r == rr
        }),
{
    let a = stack.pop()?;
    match a.not_value() {
        Result::Ok(v) => {
            stack.push(v);
            Result::Ok(())
        },
        Result::Err(e) => Result::Err(e),
    }
}

} // verus!
