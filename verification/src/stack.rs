//! The operand stack: a LIFO store of values, the sole operand channel
//! between all operations.  Its view is the sequence of abstract values,
//! bottom first.
use vstd::prelude::*;
use crate::types::{abs_seq, group_abs_seq, AbsValue, Error, Value};

verus! {

pub struct Stack {
    stack: Vec<Value>,
}

impl View for Stack {
    type V = Seq<AbsValue>;

    closed spec fn view(&self) -> Seq<AbsValue> {
        abs_seq(self.stack@)
    }
}

/// One step that pops two operands (top, then the one under it) and applies
/// `f` to them in stack order.  A missing operand stays popped; a failing
/// `f` leaves both operands popped: state reached before a failure is kept.
pub open spec fn binop_step(
    s: Seq<AbsValue>,
    f: spec_fn(AbsValue, AbsValue) -> Result<AbsValue, Error>,
) -> (Seq<AbsValue>, Result<(), Error>) {
    if s.len() == 0 {
        (s, Result::Err(Error::StackUnderflow))
    } else if s.len() == 1 {
        (s.drop_last(), Result::Err(Error::StackUnderflow))
    } else {
        let rest = s.take(s.len() - 2);
        match f(s[s.len() - 2], s.last()) {
            Result::Ok(v) => (rest.push(v), Result::Ok(())),
            Result::Err(e) => (rest, Result::Err(e)),
        }
    }
}

/// One step that pops a single operand and applies `f` to it.
pub open spec fn unop_step(
    s: Seq<AbsValue>,
    f: spec_fn(AbsValue) -> Result<AbsValue, Error>,
) -> (Seq<AbsValue>, Result<(), Error>) {
    if s.len() == 0 {
        (s, Result::Err(Error::StackUnderflow))
    } else {
        match f(s.last()) {
            Result::Ok(v) => (s.drop_last().push(v), Result::Ok(())),
            Result::Err(e) => (s.drop_last(), Result::Err(e)),
        }
    }
}

impl Stack {
    pub fn new() -> (s: Self)
        ensures
            s@ == Seq::<AbsValue>::empty(),
    {
        Stack { stack: Vec::new() }
    }

    pub fn len(&self) -> (n: usize)
        ensures
            n == self@.len(),
    {
        proof {
            broadcast use group_abs_seq;
        }
        self.stack.len()
    }

    pub fn push(&mut self, value: Value)
        ensures
            final(self)@ == old(self)@.push(value@),
    {
        proof {
            broadcast use group_abs_seq;
        }
        self.stack.push(value);
    }

    /// Removes and returns the top value; an empty stack is an underflow and
    /// is left unchanged.
    pub fn pop(&mut self) -> (r: Result<Value, Error>)
        ensures
            old(self)@.len() == 0 ==> r == Result::<Value, Error>::Err(Error::StackUnderflow)
                && final(self)@ == old(self)@,
            old(self)@.len() > 0 ==> final(self)@ == old(self)@.drop_last() && (match r {
                Result::Ok(v) => v@ == old(self)@.last(),
                Result::Err(_) => false,
            }),
    {
        proof {
            broadcast use group_abs_seq;
        }
        match self.stack.pop() {
            Option::Some(v) => {
                proof {
                    assert(abs_seq(old(self).stack@.drop_last()) =~= abs_seq(
                        old(self).stack@,
                    ).drop_last());
                }
                Result::Ok(v)
            },
            Option::None => Result::Err(Error::StackUnderflow),
        }
    }

    /// The value at position `i`, counted from the bottom.
    pub fn get(&self, i: usize) -> (v: &Value)
        requires
            i < self@.len(),
        ensures
            v@ == self@[i as int],
    {
        proof {
            broadcast use group_abs_seq;
        }
        &self.stack[i]
    }

    /// Exchanges the two top values.  With one value on the stack that value
    /// is popped before the underflow shows.
    pub fn swap(&mut self) -> (r: Result<(), Error>)
        ensures
            old(self)@.len() == 0 ==> r == Result::<(), Error>::Err(Error::StackUnderflow)
                && final(self)@ == old(self)@,
            old(self)@.len() == 1 ==> r == Result::<(), Error>::Err(Error::StackUnderflow)
                && final(self)@ == old(self)@.drop_last(),
            old(self)@.len() >= 2 ==> r == Result::<(), Error>::Ok(()) && final(self)@ == old(
                self,
            )@.take(old(self)@.len() - 2).push(old(self)@.last()).push(
                old(self)@[old(self)@.len() - 2],
            ),
    {
        let a = self.pop()?;
        let b = self.pop()?;
        proof {
            assert(old(self)@.drop_last().drop_last() =~= old(self)@.take(old(self)@.len() - 2));
        }
        self.push(a);
        self.push(b);
        Result::Ok(())
    }

    /// Duplicates the top value.
    pub fn dup(&mut self) -> (r: Result<(), Error>)
        ensures
            old(self)@.len() == 0 ==> r == Result::<(), Error>::Err(Error::StackUnderflow)
                && final(self)@ == old(self)@,
            old(self)@.len() > 0 ==> r == Result::<(), Error>::Ok(()) && final(self)@ == old(
                self,
            )@.push(old(self)@.last()),
    {
        let top = self.pop()?;
        let copy = top.clone_value();
        self.push(top);
        self.push(copy);
        proof {
            assert(old(self)@.drop_last().push(old(self)@.last()) =~= old(self)@);
        }
        Result::Ok(())
    }
}

} // verus!
