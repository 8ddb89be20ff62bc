//! Stack-level arithmetic and relational operators: each pops its operands
//! (top first) and pushes the result of the value-level operation in stack
//! order.
use vstd::prelude::*;
use crate::stack::{binop_step, Stack};
use crate::types::{
    abs_add, abs_div, abs_eq, abs_gt, abs_lt, abs_mul, abs_sub, value_add, value_div, value_eq,
    value_mul, value_sub, AbsValue, Error, Value,
};

verus! {


/// What `+` does to the stack.
pub open spec fn add_step(s: Seq<AbsValue>) -> (Seq<AbsValue>, Result<(), Error>) {
    binop_step(s, |a: AbsValue, b: AbsValue| abs_add(a, b))
}

/// What `-` does to the stack.
pub open spec fn sub_step(s: Seq<AbsValue>) -> (Seq<AbsValue>, Result<(), Error>) {
    binop_step(s, |a: AbsValue, b: AbsValue| abs_sub(a, b))
}

/// What `*` does to the stack.
pub open spec fn mul_step(s: Seq<AbsValue>) -> (Seq<AbsValue>, Result<(), Error>) {
    binop_step(s, |a: AbsValue, b: AbsValue| abs_mul(a, b))
}

/// What `/` and `div` do to the stack.
pub open spec fn div_step(s: Seq<AbsValue>) -> (Seq<AbsValue>, Result<(), Error>) {
    binop_step(s, |a: AbsValue, b: AbsValue| abs_div(a, b))
}

/// What `<` does to the stack.
pub open spec fn lt_step(s: Seq<AbsValue>) -> (Seq<AbsValue>, Result<(), Error>) {
    binop_step(s, |a: AbsValue, b: AbsValue| abs_lt(a, b))
}

/// What `>` does to the stack.
pub open spec fn gt_step(s: Seq<AbsValue>) -> (Seq<AbsValue>, Result<(), Error>) {
    binop_step(s, |a: AbsValue, b: AbsValue| abs_gt(a, b))
}

/// What `==` does to the stack.
pub open spec fn eq_step(s: Seq<AbsValue>) -> (Seq<AbsValue>, Result<(), Error>) {
    binop_step(
        s,
        |a: AbsValue, b: AbsValue| Result::<AbsValue, Error>::Ok(AbsValue::Boolean(abs_eq(a, b))),
    )
}

/// The `+` operator.
pub fn add(stack: &mut Stack) -> (r: Result<(), Error>)
    ensures
        ({
            let (s2, rr) = add_step(old(stack)@);
            final(stack)@ == s2 && r == rr
        }),
{
    let b = stack.pop()?;
    let a = stack.pop()?;
    proof {
        assert(old(stack)@.drop_last().drop_last() =~= old(stack)@.take(old(stack)@.len() - 2));
    }
    match value_add(a, b) {
        Result::Ok(v) => {
            stack.push(v);
            Result::Ok(())
        },
        Result::Err(e) => Result::Err(e),
    }
}

/// The `-` operator.
pub fn sub(stack: &mut Stack) -> (r: Result<(), Error>)
    ensures
        ({
            let (s2, rr) = sub_step(old(stack)@);
            final(stack)@ == s2 && r == rr
        }),
{
    let b = stack.pop()?;
    let a = stack.pop()?;
    proof {
        assert(old(stack)@.drop_last().drop_last() =~= old(stack)@.take(old(stack)@.len() - 2));
    }
    match value_sub(a, b) {
        Result::Ok(v) => {
            stack.push(v);
            Result::Ok(())
        },
        Result::Err(e) => Result::Err(e),
    }
}

/// The `*` operator.
pub fn mul(stack: &mut Stack) -> (r: Result<(), Error>)
    ensures
        ({
            let (s2, rr) = mul_step(old(stack)@);
            final(stack)@ == s2 && r == rr
        }),
{
    let b = stack.pop()?;
    let a = stack.pop()?;
    proof {
        assert(old(stack)@.drop_last().drop_last() =~= old(stack)@.take(old(stack)@.len() - 2));
    }
    match value_mul(a, b) {
        Result::Ok(v) => {
            stack.push(v);
            Result::Ok(())
        },
        Result::Err(e) => Result::Err(e),
    }
}

/// The `/` operator.
pub fn div(stack: &mut Stack) -> (r: Result<(), Error>)
    ensures
        ({
            let (s2, rr) = div_step(old(stack)@);
            final(stack)@ == s2 && r == rr
        }),
{
    let b = stack.pop()?;
    let a = stack.pop()?;
    proof {
        assert(old(stack)@.drop_last().drop_last() =~= old(stack)@.take(old(stack)@.len() - 2));
    }
    match value_div(a, b) {
        Result::Ok(v) => {
            stack.push(v);
            Result::Ok(())
        },
        Result::Err(e) => Result::Err(e),
    }
}

/// The `div` operator: on integers the same truncating division as `/`.
pub fn int_div(stack: &mut Stack) -> (r: Result<(), Error>)
    ensures
        ({
            let (s2, rr) = div_step(old(stack)@);
            final(stack)@ == s2 && r == rr
        }),
{
    div(stack)
}

/// The `<` operator.
pub fn lt(stack: &mut Stack) -> (r: Result<(), Error>)
    ensures
        ({
            let (s2, rr) = lt_step(old(stack)@);
            final(stack)@ == s2 && r == rr
        }),
{
    let b = stack.pop()?;
    let a = stack.pop()?;
    proof {
        assert(old(stack)@.drop_last().drop_last() =~= old(stack)@.take(old(stack)@.len() - 2));
    }
    match crate::types::value_cmp(&a, &b) {
        crate::types::CmpRes::Lt => {
            stack.push(Value::Boolean(true));
            Result::Ok(())
        },
        crate::types::CmpRes::Eq => {
            stack.push(Value::Boolean(false));
            Result::Ok(())
        },
        crate::types::CmpRes::Gt => {
            stack.push(Value::Boolean(false));
            Result::Ok(())
        },
        crate::types::CmpRes::Incomparable => Result::Err(Error::TypeMismatch),
    }
}

/// The `>` operator.
pub fn gt(stack: &mut Stack) -> (r: Result<(), Error>)
    ensures
        ({
            let (s2, rr) = gt_step(old(stack)@);
            final(stack)@ == s2 && r == rr
        }),
{
    let b = stack.pop()?;
    let a = stack.pop()?;
    proof {
        assert(old(stack)@.drop_last().drop_last() =~= old(stack)@.take(old(stack)@.len() - 2));
    }
    match crate::types::value_cmp(&a, &b) {
        crate::types::CmpRes::Gt => {
            stack.push(Value::Boolean(true));
            Result::Ok(())
        },
        crate::types::CmpRes::Eq => {
            stack.push(Value::Boolean(false));
            Result::Ok(())
        },
        crate::types::CmpRes::Lt => {
            stack.push(Value::Boolean(false));
            Result::Ok(())
        },
        crate::types::CmpRes::Incomparable => Result::Err(Error::TypeMismatch),
    }
}

/// The `==` operator: a boolean for any pairing, false across variants.
pub fn eq(stack: &mut Stack) -> (r: Result<(), Error>)
    ensures
        ({
            let (s2, rr) = eq_step(old(stack)@);
            final(stack)@ == s2 && r == rr
        }),
{
    let b = stack.pop()?;
    let a = stack.pop()?;
    proof {
        assert(old(stack)@.drop_last().drop_last() =~= old(stack)@.take(old(stack)@.len() - 2));
    }
    let same = value_eq(&a, &b);
    stack.push(Value::Boolean(same));
    Result::Ok(())
}

} // verus!
