//! Stack-level list and string operators.
use vstd::prelude::*;
use crate::stack::{binop_step, unop_step, Stack};
use crate::text;
use crate::types::{
    abs_append, abs_cons, abs_empty, abs_head, abs_lenght, abs_parse_integer, abs_seq, abs_tail,
    abs_words, group_abs_seq, AbsValue, Error, Value,
};

verus! {


/// What `head` does to the stack.
pub open spec fn head_step(s: Seq<AbsValue>) -> (Seq<AbsValue>, Result<(), Error>) {
    unop_step(s, |v: AbsValue| abs_head(v))
}

/// What `tail` does to the stack.
pub open spec fn tail_step(s: Seq<AbsValue>) -> (Seq<AbsValue>, Result<(), Error>) {
    unop_step(s, |v: AbsValue| abs_tail(v))
}

/// What `empty` does to the stack.
pub open spec fn empty_step(s: Seq<AbsValue>) -> (Seq<AbsValue>, Result<(), Error>) {
    unop_step(s, |v: AbsValue| abs_empty(v))
}

/// What `length` does to the stack.
pub open spec fn lenght_step(s: Seq<AbsValue>) -> (Seq<AbsValue>, Result<(), Error>) {
    unop_step(s, |v: AbsValue| abs_lenght(v))
}

/// What `cons` does to the stack.
pub open spec fn cons_step(s: Seq<AbsValue>) -> (Seq<AbsValue>, Result<(), Error>) {
    binop_step(s, |a: AbsValue, b: AbsValue| abs_cons(a, b))
}

/// What `append` does to the stack.
pub open spec fn append_step(s: Seq<AbsValue>) -> (Seq<AbsValue>, Result<(), Error>) {
    binop_step(s, |a: AbsValue, b: AbsValue| abs_append(a, b))
}

/// What `words` does to the stack.
pub open spec fn words_step(s: Seq<AbsValue>) -> (Seq<AbsValue>, Result<(), Error>) {
    unop_step(s, |v: AbsValue| abs_words(v))
}

/// What `parseInteger` does to the stack.
pub open spec fn parse_integer_step(s: Seq<AbsValue>) -> (Seq<AbsValue>, Result<(), Error>) {
    unop_step(s, |v: AbsValue| abs_parse_integer(v))
}

/// The `head` operator.
pub fn head(stack: &mut Stack) -> (r: Result<(), Error>)
    ensures
        ({
            let (s2, rr) = head_step(old(stack)@);
            final(stack)@ == s2 && r == rr
        }),
{
    let top = stack.pop()?;
    match Value::head(&top) {
        Result::Ok(v) => {
            stack.push(v);
            Result::Ok(())
        },
        Result::Err(e) => Result::Err(e),
    }
}

/// The `tail` operator.
pub fn tail(stack: &mut Stack) -> (r: Result<(), Error>)
    ensures
        ({
            let (s2, rr) = tail_step(old(stack)@);
            final(stack)@ == s2 && r == rr
        }),
{
    let top = stack.pop()?;
    match Value::tail(&top) {
        Result::Ok(v) => {
            stack.push(v);
            Result::Ok(())
        },
        Result::Err(e) => Result::Err(e),
    }
}

/// The `empty` operator.
pub fn empty(stack: &mut Stack) -> (r: Result<(), Error>)
    ensures
        ({
            let (s2, rr) = empty_step(old(stack)@);
            final(stack)@ == s2 && r == rr
        }),
{
    let top = stack.pop()?;
    match Value::empty(&top) {
        Result::Ok(v) => {
            stack.push(v);
            Result::Ok(())
        },
        Result::Err(e) => Result::Err(e),
    }
}

/// The `length` operator.
pub fn lenght(stack: &mut Stack) -> (r: Result<(), Error>)
    ensures
        ({
            let (s2, rr) = lenght_step(old(stack)@);
            final(stack)@ == s2 && r == rr
        }),
{
    let top = stack.pop()?;
    match Value::lenght(&top) {
        Result::Ok(v) => {
            stack.push(v);
            Result::Ok(())
        },
        Result::Err(e) => Result::Err(e),
    }
}

/// The `cons` operator: pops a list, pops a value, pushes the list with the
/// value at its front.
pub fn cons(stack: &mut Stack) -> (r: Result<(), Error>)
    ensures
        ({
            let (s2, rr) = cons_step(old(stack)@);
            final(stack)@ == s2 && r == rr
        }),
{
    let b = stack.pop()?;
    let value = stack.pop()?;
    proof {
        assert(old(stack)@.drop_last().drop_last() =~= old(stack)@.take(old(stack)@.len() - 2));
    }
    match b {
        Value::List(mut list) => {
            Value::cons(&mut list, value)?;
            stack.push(Value::List(list));
            Result::Ok(())
        },
        _ => Result::Err(Error::TypeMismatch),
    }
}

/// The `append` operator: pops two lists and pushes their concatenation in
/// stack order.
pub fn append(stack: &mut Stack) -> (r: Result<(), Error>)
    ensures
        ({
            let (s2, rr) = append_step(old(stack)@);
            final(stack)@ == s2 && r == rr
        }),
{
    let b = stack.pop()?;
    let a = stack.pop()?;
    proof {
        assert(old(stack)@.drop_last().drop_last() =~= old(stack)@.take(old(stack)@.len() - 2));
    }
    match (a, b) {
        (Value::List(mut x), Value::List(y)) => {
            Value::append(&mut x, y)?;
            stack.push(Value::List(x));
            Result::Ok(())
        },
        _ => Result::Err(Error::TypeMismatch),
    }
}

/// The `parseInteger` operator: replaces the top string with the integer it
/// spells.
pub fn parse_integer_op(stack: &mut Stack) -> (r: Result<(), Error>)
    ensures
        ({
            let (s2, rr) = parse_integer_step(old(stack)@);
            final(stack)@ == s2 && r == rr
        }),
{
    let top = stack.pop()?;
    match top {
        Value::Str(s) => {
            match Value::parse_integer(s.as_str()) {
                Result::Ok(v) => {
                    stack.push(v);
                    Result::Ok(())
                },
                Result::Err(e) => Result::Err(e),
            }
        },
        _ => Result::Err(Error::TypeMismatch),
    }
}

impl Value {
    /// The `words` operator: splits the top string on whitespace into a list
    /// of strings.
    #[verifier::loop_isolation(false)]
    pub fn words(stack: &mut Stack) -> (r: Result<(), Error>)
        ensures
            ({
                let (s2, rr) = words_step(old(stack)@);
                final(stack)@ == s2 && r == rr
            }),
    {
        broadcast use group_abs_seq;
        let input = stack.pop()?;
        match input {
            Value::Str(s) => {
                let pieces = text::split_ws_str(s.as_str());
                let mut out: Vec<Value> = Vec::new();
                let mut i: usize = 0;
                while i < pieces.len()
                    invariant
                        0 <= i <= pieces@.len(),
                        out@.len() == i,
                        forall|j: int| 0 <= j < i ==> out@[j]@ == AbsValue::Str(
                            pieces.deep_view()[j],
                        ),
                    decreases pieces@.len() - i,
                {
                    out.push(Value::Str(pieces[i].clone()));
                    i = i + 1;
                }
                proof {
                    assert(abs_seq(out@) =~= text::split_ws(s@).map_values(
                        |p: Seq<char>| AbsValue::Str(p),
                    ));
                }
                stack.push(Value::List(out));
                Result::Ok(())
            },
            _ => Result::Err(Error::TypeMismatch),
        }
    }
}

} // verus!
