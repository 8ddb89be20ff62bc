//! The evaluator.  A block's tokens are walked one at a time: a token that
//! names a variable pushes a copy of its value, one that names a function
//! runs the stored block, operator tokens dispatch to the fixed table, and
//! anything else pushes the literal it denotes.  The whole machine is given
//! a total, step-bounded mathematical semantics (`eval_tokens` and friends);
//! every executable function here is proved to compute exactly that
//! semantics.  The step budget (`fuel`) bounds block nesting and loop
//! iterations; an evaluation that exhausts it fails with `Error::OutOfFuel`.
use vstd::prelude::*;
use vstd::wrapping::i64_specs;
use crate::arithmetic;
use crate::functions::Functions;
use crate::lists;
use crate::logic;
use crate::reader;
use crate::reader::{read_block_s, read_list_s, read_string_s};
use crate::render;
use crate::render::render_with_vars;
use crate::stack::Stack;
use crate::text;
use crate::types::{conv, convert, AbsValue, Error, Value};
use crate::variables::Variables;

verus! {

/// The evaluation's record of the outside world: lines available to the
/// `read` operator, and everything `print` and `println` have emitted.
pub struct Effects {
    pub input: Vec<String>,
    pub output: String,
}

impl Effects {
    /// An empty record: no input lines, nothing emitted.
    pub fn new() -> (r: Self)
        ensures
            r.input.deep_view() == Seq::<Seq<char>>::empty(),
            r.output@ == Seq::<char>::empty(),
    {
        let r = Effects { input: Vec::new(), output: String::new() };
        proof {
            assert(r.input.deep_view() =~= Seq::<Seq<char>>::empty());
        }
        r
    }
}

/// The complete machine state, abstractly: the operand stack (bottom first),
/// the two environments, the pending input lines and the emitted output.
#[verifier::ext_equal]
pub struct AbsState {
    pub stack: Seq<AbsValue>,
    pub vars: Map<Seq<char>, AbsValue>,
    pub funs: Map<Seq<char>, AbsValue>,
    pub input: Seq<Seq<char>>,
    pub output: Seq<char>,
}

/// How an evaluation ends: cleanly, or failing with an error.  Either way
/// the state reached is part of the outcome: there is no rollback.
#[verifier::ext_equal]
pub enum Eval {
    Done { st: AbsState },
    Fail { st: AbsState, err: Error },
}

/// The abstraction of the machine's concrete parts.
pub open spec fn abs_state(stack: Stack, vars: Variables, funs: Functions, io: Effects) -> AbsState {
    AbsState {
        stack: stack@,
        vars: vars@,
        funs: funs@,
        input: io.input.deep_view(),
        output: io.output@,
    }
}

impl AbsState {
    pub open spec fn with_stack(self, s: Seq<AbsValue>) -> AbsState {
        AbsState { stack: s, ..self }
    }

    pub open spec fn push(self, v: AbsValue) -> AbsState {
        self.with_stack(self.stack.push(v))
    }

    pub open spec fn drop_top(self) -> AbsState {
        self.with_stack(self.stack.drop_last())
    }
}

/// A control-flow branch read by lookahead: a `{` opens a block, any other
/// single token is a one-token block, and at the end of the tokens the
/// branch is empty.  Returns the branch and the position after it.
pub open spec fn branch_of(ts: Seq<Seq<char>>, i: int) -> (Seq<Seq<char>>, int) {
    if i < 0 || i >= ts.len() {
        (Seq::empty(), i)
    } else if ts[i] == "{"@ {
        read_block_s(ts, i + 1, 1, Seq::empty())
    } else {
        (seq![ts[i]], i + 1)
    }
}

/// What `:=` does: pops a value, pops a name, and binds the name — which
/// must be a symbol — to the value in the variable environment.
pub open spec fn assign_step(s: Seq<AbsValue>, vars: Map<Seq<char>, AbsValue>) -> (
    Seq<AbsValue>,
    Map<Seq<char>, AbsValue>,
    Result<(), Error>,
) {
    if s.len() == 0 {
        (s, vars, Result::Err(Error::StackUnderflow))
    } else if s.len() == 1 {
        (s.drop_last(), vars, Result::Err(Error::StackUnderflow))
    } else {
        let value = s.last();
        let name = s[s.len() - 2];
        let rest = s.take(s.len() - 2);
        match name {
            AbsValue::Symbol(nm) => (rest, vars.insert(nm, value), Result::Ok(())),
            _ => (rest, vars, Result::Err(Error::InvalidBinding)),
        }
    }
}

/// What `fun` does: pops a stored value, pops a name, and binds the name —
/// which must be a symbol — in the function environment.
pub open spec fn fun_step(s: Seq<AbsValue>, funs: Map<Seq<char>, AbsValue>) -> (
    Seq<AbsValue>,
    Map<Seq<char>, AbsValue>,
    Result<(), Error>,
) {
    if s.len() == 0 {
        (s, funs, Result::Err(Error::StackUnderflow))
    } else if s.len() == 1 {
        (s.drop_last(), funs, Result::Err(Error::StackUnderflow))
    } else {
        let value = s.last();
        let name = s[s.len() - 2];
        let rest = s.take(s.len() - 2);
        match name {
            AbsValue::Symbol(nm) => (rest, funs.insert(nm, value), Result::Ok(())),
            _ => (rest, funs, Result::Err(Error::InvalidBinding)),
        }
    }
}

/// Evaluation of a block's token sequence, one token at a time, from
/// position `i`.  `fuel` bounds block nesting and loop iterations.
pub open spec fn eval_tokens(ts: Seq<Seq<char>>, i: int, st: AbsState, fuel: nat) -> Eval
    decreases fuel, ts.len() - i, 3int,
{
    if i < 0 || i >= ts.len() {
        Eval::Done { st }
    } else {
        let t = ts[i];
        if st.vars.contains_key(t) {
            eval_tokens(ts, i + 1, st.push(st.vars[t]), fuel)
        } else if st.funs.contains_key(t) {
            match st.funs[t] {
                AbsValue::Block(b) => match eval_block(b, st, fuel) {
                    Eval::Done { st: st2 } => eval_tokens(ts, i + 1, st2, fuel),
                    f => f,
                },
                _ => Eval::Fail { st, err: Error::TypeMismatch },
            }
        } else if t == "+"@ {
            step_continue(ts, i, st, fuel, arithmetic::add_step(st.stack))
        } else if t == "-"@ {
            step_continue(ts, i, st, fuel, arithmetic::sub_step(st.stack))
        } else if t == "*"@ {
            step_continue(ts, i, st, fuel, arithmetic::mul_step(st.stack))
        } else if t == "/"@ {
            step_continue(ts, i, st, fuel, arithmetic::div_step(st.stack))
        } else if t == "div"@ {
            step_continue(ts, i, st, fuel, arithmetic::div_step(st.stack))
        } else if t == "<"@ {
            step_continue(ts, i, st, fuel, arithmetic::lt_step(st.stack))
        } else if t == ">"@ {
            step_continue(ts, i, st, fuel, arithmetic::gt_step(st.stack))
        } else if t == "=="@ {
            step_continue(ts, i, st, fuel, arithmetic::eq_step(st.stack))
        } else if t == "dup"@ {
            if st.stack.len() == 0 {
                Eval::Fail { st, err: Error::StackUnderflow }
            } else {
                eval_tokens(ts, i + 1, st.push(st.stack.last()), fuel)
            }
        } else if t == "swap"@ {
            if st.stack.len() == 0 {
                Eval::Fail { st, err: Error::StackUnderflow }
            } else if st.stack.len() == 1 {
                Eval::Fail { st: st.drop_top(), err: Error::StackUnderflow }
            } else {
                let n = st.stack.len();
                eval_tokens(
                    ts,
                    i + 1,
                    st.with_stack(
                        st.stack.take(n - 2).push(st.stack.last()).push(st.stack[n - 2]),
                    ),
                    fuel,
                )
            }
        } else if t == "pop"@ {
            if st.stack.len() == 0 {
                Eval::Fail { st, err: Error::StackUnderflow }
            } else {
                eval_tokens(ts, i + 1, st.drop_top(), fuel)
            }
        } else if t == "words"@ {
            step_continue(ts, i, st, fuel, lists::words_step(st.stack))
        } else if t == "print"@ {
            if st.stack.len() == 0 {
                Eval::Fail { st, err: Error::StackUnderflow }
            } else {
                let shown = render_with_vars(st.stack.last(), st.vars);
                eval_tokens(
                    ts,
                    i + 1,
                    AbsState {
                        stack: st.stack.drop_last(),
                        output: st.output + shown,
                        ..st
                    },
                    fuel,
                )
            }
        } else if t == "read"@ {
            if st.input.len() > 0 {
                eval_tokens(
                    ts,
                    i + 1,
                    AbsState {
                        stack: st.stack.push(AbsValue::Str(text::trim_s(st.input[0]))),
                        input: st.input.drop_first(),
                        ..st
                    },
                    fuel,
                )
            } else {
                eval_tokens(ts, i + 1, st.push(AbsValue::Str(Seq::empty())), fuel)
            }
        } else if t == "parseInteger"@ {
            step_continue(ts, i, st, fuel, lists::parse_integer_step(st.stack))
        } else if t == "parseFloat"@ {
            step_continue(ts, i, st, fuel, parse_float_step(st.stack))
        } else if t == "&&"@ {
            step_continue(ts, i, st, fuel, logic::and_step(st.stack))
        } else if t == "||"@ {
            step_continue(ts, i, st, fuel, logic::or_step(st.stack))
        } else if t == "not"@ {
            step_continue(ts, i, st, fuel, logic::not_step(st.stack))
        } else if t == "["@ {
            let (items, i2) = read_list_s(ts, i + 1, Seq::empty());
            if i < i2 && i2 <= ts.len() {
                eval_tokens(ts, i2, st.push(AbsValue::List(items)), fuel)
            } else {
                Eval::Fail { st, err: Error::OutOfFuel }
            }
        } else if t == "{"@ {
            let (b, i2) = read_block_s(ts, i + 1, 1, Seq::empty());
            if i < i2 && i2 <= ts.len() {
                eval_tokens(ts, i2, st.push(AbsValue::Block(b)), fuel)
            } else {
                Eval::Fail { st, err: Error::OutOfFuel }
            }
        } else if t == "\""@ {
            let (s, i2) = read_string_s(ts, i + 1, Seq::empty());
            if i < i2 && i2 <= ts.len() {
                eval_tokens(ts, i2, st.push(AbsValue::Str(text::trim_s(s))), fuel)
            } else {
                Eval::Fail { st, err: Error::OutOfFuel }
            }
        } else if t == "head"@ {
            step_continue(ts, i, st, fuel, lists::head_step(st.stack))
        } else if t == "tail"@ {
            step_continue(ts, i, st, fuel, lists::tail_step(st.stack))
        } else if t == "empty"@ {
            step_continue(ts, i, st, fuel, lists::empty_step(st.stack))
        } else if t == "length"@ {
            step_continue(ts, i, st, fuel, lists::lenght_step(st.stack))
        } else if t == "cons"@ {
            step_continue(ts, i, st, fuel, lists::cons_step(st.stack))
        } else if t == "append"@ {
            step_continue(ts, i, st, fuel, lists::append_step(st.stack))
        } else if t == "if"@ {
            let (out, i2) = eval_if(ts, i + 1, st, fuel);
            match out {
                Eval::Done { st: st2 } => if i < i2 && i2 <= ts.len() {
                    eval_tokens(ts, i2, st2, fuel)
                } else {
                    Eval::Fail { st: st2, err: Error::OutOfFuel }
                },
                f => f,
            }
        } else if t == "println"@ {
            if st.stack.len() == 0 {
                Eval::Fail { st, err: Error::StackUnderflow }
            } else {
                let shown = render_with_vars(st.stack.last(), st.vars);
                eval_tokens(
                    ts,
                    i + 1,
                    AbsState {
                        stack: st.stack.drop_last(),
                        output: st.output + shown + seq!['\n'],
                        ..st
                    },
                    fuel,
                )
            }
        } else if t == "each"@ {
            let (out, i2) = eval_each_op(ts, i + 1, st, fuel);
            match out {
                Eval::Done { st: st2 } => if i < i2 && i2 <= ts.len() {
                    eval_tokens(ts, i2, st2, fuel)
                } else {
                    Eval::Fail { st: st2, err: Error::OutOfFuel }
                },
                f => f,
            }
        } else if t == "map"@ {
            let (out, i2) = eval_map_op(ts, i + 1, st, fuel);
            match out {
                Eval::Done { st: st2 } => if i < i2 && i2 <= ts.len() {
                    eval_tokens(ts, i2, st2, fuel)
                } else {
                    Eval::Fail { st: st2, err: Error::OutOfFuel }
                },
                f => f,
            }
        } else if t == "foldl"@ {
            let (out, i2) = eval_foldl_op(ts, i + 1, st, fuel);
            match out {
                Eval::Done { st: st2 } => if i < i2 && i2 <= ts.len() {
                    eval_tokens(ts, i2, st2, fuel)
                } else {
                    Eval::Fail { st: st2, err: Error::OutOfFuel }
                },
                f => f,
            }
        } else if t == "loop"@ {
            let (out, i2) = eval_loop_op(ts, i + 1, st, fuel);
            match out {
                Eval::Done { st: st2 } => if i < i2 && i2 <= ts.len() {
                    eval_tokens(ts, i2, st2, fuel)
                } else {
                    Eval::Fail { st: st2, err: Error::OutOfFuel }
                },
                f => f,
            }
        } else if t == "times"@ {
            let (out, i2) = eval_times_op(ts, i + 1, st, fuel);
            match out {
                Eval::Done { st: st2 } => if i < i2 && i2 <= ts.len() {
                    eval_tokens(ts, i2, st2, fuel)
                } else {
                    Eval::Fail { st: st2, err: Error::OutOfFuel }
                },
                f => f,
            }
        } else if t == ":="@ {
            let (s2, vars2, rr) = assign_step(st.stack, st.vars);
            let st2 = AbsState { stack: s2, vars: vars2, ..st };
            match rr {
                Result::Ok(_) => eval_tokens(ts, i + 1, st2, fuel),
                Result::Err(e) => Eval::Fail { st: st2, err: e },
            }
        } else if t == "fun"@ {
            let (s2, funs2, rr) = fun_step(st.stack, st.funs);
            let st2 = AbsState { stack: s2, funs: funs2, ..st };
            match rr {
                Result::Ok(_) => eval_tokens(ts, i + 1, st2, fuel),
                Result::Err(e) => Eval::Fail { st: st2, err: e },
            }
        } else if t == "exec"@ {
            if st.stack.len() == 0 {
                Eval::Fail { st, err: Error::StackUnderflow }
            } else {
                let st1 = st.drop_top();
                match st.stack.last() {
                    AbsValue::Block(b) => match eval_block(b, st1, fuel) {
                        Eval::Done { st: st2 } => eval_tokens(ts, i + 1, st2, fuel),
                        f => f,
                    },
                    _ => Eval::Fail { st: st1, err: Error::TypeMismatch },
                }
            }
        } else {
            eval_tokens(ts, i + 1, st.push(conv(t)), fuel)
        }
    }
}

/// What `parseFloat` does to the stack.  Floating-point values are outside
/// this interpreter's value set, so on a string it always reports a parse
/// failure; on anything else, a type mismatch.
pub open spec fn parse_float_step(s: Seq<AbsValue>) -> (Seq<AbsValue>, Result<(), Error>) {
    crate::stack::unop_step(
        s,
        |v: AbsValue| match v {
            AbsValue::Str(_) => Result::<AbsValue, Error>::Err(Error::ParseFailure),
            _ => Result::<AbsValue, Error>::Err(Error::TypeMismatch),
        },
    )
}

/// Applies a stack-step's outcome: continue with the next token on success,
/// fail in place on an error.
pub open spec fn step_continue(
    ts: Seq<Seq<char>>,
    i: int,
    st: AbsState,
    fuel: nat,
    stepped: (Seq<AbsValue>, Result<(), Error>),
) -> Eval
    decreases fuel, ts.len() - i, 2int,
{
    let st2 = st.with_stack(stepped.0);
    match stepped.1 {
        Result::Ok(_) => if 0 <= i < ts.len() {
            eval_tokens(ts, i + 1, st2, fuel)
        } else {
            Eval::Fail { st: st2, err: Error::OutOfFuel }
        },
        Result::Err(e) => Eval::Fail { st: st2, err: e },
    }
}

/// Running a stored block: one unit of fuel buys one nesting level.
pub open spec fn eval_block(b: Seq<Seq<char>>, st: AbsState, fuel: nat) -> Eval
    decreases fuel, 0int, 0int,
{
    if fuel == 0 {
        Eval::Fail { st, err: Error::OutOfFuel }
    } else {
        eval_tokens(b, 0, st, (fuel - 1) as nat)
    }
}

/// The `if` operator, from the position after its token: pops the
/// condition, reads both branches, then runs the chosen branch.  Returns the
/// outcome and the position after the branches.
pub open spec fn eval_if(ts: Seq<Seq<char>>, i: int, st: AbsState, fuel: nat) -> (Eval, int)
    decreases fuel, 0int, 2int,
{
    if st.stack.len() == 0 {
        (Eval::Fail { st, err: Error::StackUnderflow }, i)
    } else {
        let val = st.stack.last();
        let st1 = st.drop_top();
        let (b1, ia) = branch_of(ts, i);
        let (b2, ib) = branch_of(ts, ia);
        match val {
            AbsValue::Boolean(c) => (
                eval_block(
                    if c {
                        b1
                    } else {
                        b2
                    },
                    st1,
                    fuel,
                ),
                ib,
            ),
            _ => ((Eval::Fail { st: st1, err: Error::TypeMismatch }), ib),
        }
    }
}

/// The `times` operator, from the position after its token: reads one
/// branch, pops the count — which must be an integer — and runs the branch
/// that many times (at least once: the count is decremented after each run
/// and tested against zero).
pub open spec fn eval_times_op(ts: Seq<Seq<char>>, i: int, st: AbsState, fuel: nat) -> (Eval, int)
    decreases fuel, 0int, 2int,
{
    if i < 0 || i >= ts.len() {
        ((Eval::Fail { st, err: Error::MalformedControlFlow }), i)
    } else {
        let (b, i2) = branch_of(ts, i);
        if st.stack.len() == 0 {
            ((Eval::Fail { st, err: Error::StackUnderflow }), i2)
        } else {
            match st.stack.last() {
                AbsValue::Int(n) => (eval_times(b, n, st.drop_top(), fuel), i2),
                _ => ((Eval::Fail { st: st.drop_top(), err: Error::TypeMismatch }), i2),
            }
        }
    }
}

pub open spec fn eval_times(b: Seq<Seq<char>>, n: i64, st: AbsState, fuel: nat) -> Eval
    decreases fuel, 0int, 1int,
{
    if fuel == 0 {
        Eval::Fail { st, err: Error::OutOfFuel }
    } else {
        match eval_block(b, st, fuel) {
            Eval::Done { st: st2 } => {
                let n2 = i64_specs::wrapping_sub(n, 1);
                if n2 == 0 {
                    Eval::Done { st: st2 }
                } else {
                    eval_times(b, n2, st2, (fuel - 1) as nat)
                }
            },
            f => f,
        }
    }
}

/// The `loop` operator, from the position after its token: reads a
/// condition branch and a body branch, then alternates running the
/// condition, popping its boolean, and running the body until the condition
/// leaves true.
pub open spec fn eval_loop_op(ts: Seq<Seq<char>>, i: int, st: AbsState, fuel: nat) -> (Eval, int)
    decreases fuel, 0int, 2int,
{
    if i < 0 || i >= ts.len() {
        ((Eval::Fail { st, err: Error::MalformedControlFlow }), i)
    } else {
        let (c, i2) = branch_of(ts, i);
        if i2 >= ts.len() {
            ((Eval::Fail { st, err: Error::MalformedControlFlow }), i2)
        } else {
            let (b, i3) = branch_of(ts, i2);
            (eval_loop(c, b, st, fuel), i3)
        }
    }
}

pub open spec fn eval_loop(c: Seq<Seq<char>>, b: Seq<Seq<char>>, st: AbsState, fuel: nat) -> Eval
    decreases fuel, 0int, 1int,
{
    if fuel == 0 {
        Eval::Fail { st, err: Error::OutOfFuel }
    } else {
        match eval_block(c, st, fuel) {
            Eval::Done { st: st2 } => {
                if st2.stack.len() == 0 {
                    Eval::Fail { st: st2, err: Error::StackUnderflow }
                } else {
                    match st2.stack.last() {
                        AbsValue::Boolean(true) => Eval::Done { st: st2.drop_top() },
                        AbsValue::Boolean(false) => match eval_block(b, st2.drop_top(), fuel) {
                            Eval::Done { st: st3 } => eval_loop(c, b, st3, (fuel - 1) as nat),
                            f => f,
                        },
                        _ => Eval::Fail { st: st2.drop_top(), err: Error::TypeMismatch },
                    }
                }
            },
            f => f,
        }
    }
}

/// The `each` operator, from the position after its token: pops a list,
/// reads one branch, and runs the branch once per element with the element
/// pushed first.
pub open spec fn eval_each_op(ts: Seq<Seq<char>>, i: int, st: AbsState, fuel: nat) -> (Eval, int)
    decreases fuel, 0int, 2int,
{
    if st.stack.len() == 0 {
        ((Eval::Fail { st, err: Error::StackUnderflow }), i)
    } else {
        let st1 = st.drop_top();
        match st.stack.last() {
            AbsValue::List(items) => {
                if i < 0 || i >= ts.len() {
                    ((Eval::Fail { st: st1, err: Error::MalformedControlFlow }), i)
                } else {
                    let (b, i2) = branch_of(ts, i);
                    (eval_each(items, b, st1, fuel), i2)
                }
            },
            _ => ((Eval::Fail { st: st1, err: Error::TypeMismatch }), i),
        }
    }
}

pub open spec fn eval_each(items: Seq<AbsValue>, b: Seq<Seq<char>>, st: AbsState, fuel: nat) -> Eval
    decreases fuel, 0int, 1int,
{
    if items.len() == 0 {
        Eval::Done { st }
    } else if fuel == 0 {
        Eval::Fail { st, err: Error::OutOfFuel }
    } else {
        match eval_block(b, st.push(items[0]), fuel) {
            Eval::Done { st: st2 } => eval_each(items.drop_first(), b, st2, (fuel - 1) as nat),
            f => f,
        }
    }
}

/// The `map` operator, from the position after its token: pops a list,
/// reads one branch; for each element the branch runs with the element
/// pushed and one result is popped; the results are pushed as one list.
pub open spec fn eval_map_op(ts: Seq<Seq<char>>, i: int, st: AbsState, fuel: nat) -> (Eval, int)
    decreases fuel, 0int, 2int,
{
    if st.stack.len() == 0 {
        ((Eval::Fail { st, err: Error::StackUnderflow }), i)
    } else {
        let st1 = st.drop_top();
        match st.stack.last() {
            AbsValue::List(items) => {
                if i < 0 || i >= ts.len() {
                    ((Eval::Fail { st: st1, err: Error::MalformedControlFlow }), i)
                } else {
                    let (b, i2) = branch_of(ts, i);
                    (eval_map(items, b, Seq::empty(), st1, fuel), i2)
                }
            },
            _ => ((Eval::Fail { st: st1, err: Error::TypeMismatch }), i),
        }
    }
}

pub open spec fn eval_map(
    items: Seq<AbsValue>,
    b: Seq<Seq<char>>,
    acc: Seq<AbsValue>,
    st: AbsState,
    fuel: nat,
) -> Eval
    decreases fuel, 0int, 1int,
{
    if items.len() == 0 {
        Eval::Done { st: st.push(AbsValue::List(acc)) }
    } else if fuel == 0 {
        Eval::Fail { st, err: Error::OutOfFuel }
    } else {
        match eval_block(b, st.push(items[0]), fuel) {
            Eval::Done { st: st2 } => {
                if st2.stack.len() == 0 {
                    Eval::Fail { st: st2, err: Error::StackUnderflow }
                } else {
                    eval_map(
                        items.drop_first(),
                        b,
                        acc.push(st2.stack.last()),
                        st2.drop_top(),
                        (fuel - 1) as nat,
                    )
                }
            },
            f => f,
        }
    }
}

/// The `foldl` operator, from the position after its token: pops the
/// initial accumulator, pops a list, reads one branch; for each element the
/// branch runs on accumulator and element and the new accumulator is
/// popped; the final accumulator is pushed.
pub open spec fn eval_foldl_op(ts: Seq<Seq<char>>, i: int, st: AbsState, fuel: nat) -> (Eval, int)
    decreases fuel, 0int, 2int,
{
    if st.stack.len() == 0 {
        ((Eval::Fail { st, err: Error::StackUnderflow }), i)
    } else if st.stack.len() == 1 {
        ((Eval::Fail { st: st.drop_top(), err: Error::StackUnderflow }), i)
    } else {
        let start_v = st.stack.last();
        let lst = st.stack[st.stack.len() - 2];
        let st2 = st.with_stack(st.stack.take(st.stack.len() - 2));
        match lst {
            AbsValue::List(items) => {
                if i < 0 || i >= ts.len() {
                    ((Eval::Fail { st: st2, err: Error::MalformedControlFlow }), i)
                } else {
                    let (b, i2) = branch_of(ts, i);
                    (eval_foldl(items, b, start_v, st2, fuel), i2)
                }
            },
            _ => ((Eval::Fail { st: st2, err: Error::TypeMismatch }), i),
        }
    }
}

pub open spec fn eval_foldl(
    items: Seq<AbsValue>,
    b: Seq<Seq<char>>,
    acc: AbsValue,
    st: AbsState,
    fuel: nat,
) -> Eval
    decreases fuel, 0int, 1int,
{
    if items.len() == 0 {
        Eval::Done { st: st.push(acc) }
    } else if fuel == 0 {
        Eval::Fail { st, err: Error::OutOfFuel }
    } else {
        match eval_block(b, st.push(acc).push(items[0]), fuel) {
            Eval::Done { st: st2 } => {
                if st2.stack.len() == 0 {
                    Eval::Fail { st: st2, err: Error::StackUnderflow }
                } else {
                    eval_foldl(
                        items.drop_first(),
                        b,
                        st2.stack.last(),
                        st2.drop_top(),
                        (fuel - 1) as nat,
                    )
                }
            },
            f => f,
        }
    }
}

/// Executing a value: only a block can be executed.
pub open spec fn eval_value(v: AbsValue, st: AbsState, fuel: nat) -> Eval {
    match v {
        AbsValue::Block(b) => eval_block(b, st, fuel),
        _ => Eval::Fail { st, err: Error::TypeMismatch },
    }
}

/// Whether a returned result and a reached state realise an outcome.
pub open spec fn eval_matches(out: Eval, r: Result<(), Error>, now: AbsState) -> bool {
    match out {
        Eval::Done { st } => r == Result::<(), Error>::Ok(()) && now == st,
        Eval::Fail { st, err } => r == Result::<(), Error>::Err(err) && now == st,
    }
}

// ---------------------------------------------------------------------------
// The executable evaluator.
// ---------------------------------------------------------------------------

/// Reads one control-flow branch by lookahead: a `{` opens a block, any
/// other token is a one-token branch, the end of the tokens an empty one.
fn read_branch(tokens: &Vec<String>, pos: &mut usize) -> (b: Vec<String>)
    requires
        *old(pos) <= tokens@.len(),
    ensures
        ({
            let (bs, n) = branch_of(tokens.deep_view(), *old(pos) as int);
            *final(pos) == n && b.deep_view() == bs
        }),
        *old(pos) <= *final(pos) <= tokens@.len(),
{
    if *pos >= tokens.len() {
        let b: Vec<String> = Vec::new();
        proof {
            assert(b.deep_view() =~= Seq::<Seq<char>>::empty());
        }
        b
    } else if text::str_is(tokens[*pos].as_str(), "{") {
        *pos = *pos + 1;
        match reader::read_block(tokens, pos) {
            Result::Ok(v) => match v {
                Value::Block(bts) => bts,
                _ => vstd::pervasive::unreached(),
            },
            Result::Err(_) => vstd::pervasive::unreached(),
        }
    } else {
        let mut b: Vec<String> = Vec::new();
        b.push(tokens[*pos].clone());
        proof {
            assert(b.deep_view() =~= seq![tokens.deep_view()[*old(pos) as int]]);
        }
        *pos = *pos + 1;
        b
    }
}

/// The `parseFloat` operator.  Floats lie outside this interpreter's value
/// set: on a string the parse always fails, on anything else the type does.
fn parse_float_op(stack: &mut Stack) -> (r: Result<(), Error>)
    ensures
        ({
            let (s2, rr) = parse_float_step(old(stack)@);
            final(stack)@ == s2 && r == rr
        }),
{
    let top = stack.pop()?;
    match top {
        Value::Str(_) => Result::Err(Error::ParseFailure),
        _ => Result::Err(Error::TypeMismatch),
    }
}

/// The `print`/`println` operator: pops a value and emits its text, with
/// variables resolved, and a trailing newline for `println`.
fn print_op(stack: &mut Stack, variables: &Variables, io: &mut Effects, newline: bool) -> (r:
    Result<(), Error>)
    ensures
        old(stack)@.len() == 0 ==> r == Result::<(), Error>::Err(Error::StackUnderflow)
            && final(stack)@ == old(stack)@ && *final(io) == *old(io),
        old(stack)@.len() > 0 ==> r == Result::<(), Error>::Ok(())
            && final(stack)@ == old(stack)@.drop_last()
            && final(io).input == old(io).input
            && final(io).output@ == old(io).output@
                + render_with_vars(old(stack)@.last(), variables@)
                + (if newline { seq!['\n'] } else { Seq::<char>::empty() }),
{
    let v = stack.pop()?;
    let shown = v.to_string_with_variables(variables);
    io.output.append(shown.as_str());
    if newline {
        io.output.append("\n");
        proof {
            reveal_strlit("\n");
            assert("\n"@ =~= seq!['\n']);
        }
    }
    proof {
        if !newline {
            assert(io.output@ =~= old(io).output@ + render_with_vars(
                old(stack)@.last(),
                variables@,
            ) + Seq::<char>::empty());
        }
    }
    Result::Ok(())
}

/// The `read` operator: takes the next pending input line, trimmed, or an
/// empty string when the input is exhausted.
fn read_op(stack: &mut Stack, io: &mut Effects) -> (r: Result<(), Error>)
    ensures
        r == Result::<(), Error>::Ok(()),
        old(io).input@.len() > 0 ==> final(stack)@ == old(stack)@.push(
            AbsValue::Str(text::trim_s(old(io).input.deep_view()[0])),
        ) && final(io).input.deep_view() == old(io).input.deep_view().drop_first()
            && final(io).output == old(io).output,
        old(io).input@.len() == 0 ==> final(stack)@ == old(stack)@.push(
            AbsValue::Str(Seq::empty()),
        ) && *final(io) == *old(io),
{
    if io.input.len() > 0 {
        let line = io.input.remove(0);
        let t = text::trim_str(line.as_str());
        stack.push(Value::Str(t));
        proof {
            assert(io.input.deep_view() =~= old(io).input.deep_view().drop_first());
        }
    } else {
        stack.push(Value::Str(String::new()));
    }
    Result::Ok(())
}

/// The `:=` operator: pops a value, pops a symbol, and binds the symbol to
/// the value in the variable environment.
pub fn assign(stack: &mut Stack, variables: &mut Variables) -> (r: Result<(), Error>)
    ensures
        ({
            let (s2, vars2, rr) = assign_step(old(stack)@, old(variables)@);
            final(stack)@ == s2 && final(variables)@ == vars2 && r == rr
        }),
{
    let value = stack.pop()?;
    let name = stack.pop()?;
    proof {
        assert(old(stack)@.drop_last().drop_last() =~= old(stack)@.take(old(stack)@.len() - 2));
    }
    match name {
        Value::Symbol(nm) => {
            variables.set(nm.as_str(), value);
            Result::Ok(())
        },
        _ => Result::Err(Error::InvalidBinding),
    }
}

/// The `fun` operator: pops a stored value, pops a symbol, and binds the
/// symbol in the function environment.
pub fn new_function(stack: &mut Stack, functions: &mut Functions) -> (r: Result<(), Error>)
    ensures
        ({
            let (s2, funs2, rr) = fun_step(old(stack)@, old(functions)@);
            final(stack)@ == s2 && final(functions)@ == funs2 && r == rr
        }),
{
    let block = stack.pop()?;
    let name = stack.pop()?;
    proof {
        assert(old(stack)@.drop_last().drop_last() =~= old(stack)@.take(old(stack)@.len() - 2));
    }
    match name {
        Value::Symbol(nm) => {
            functions.set(nm.as_str(), block);
            Result::Ok(())
        },
        _ => Result::Err(Error::InvalidBinding),
    }
}

/// Runs a block's tokens against the machine state; `fuel` bounds nesting
/// and iteration as in `eval_block`.
fn run_block(
    tokens: &Vec<String>,
    stack: &mut Stack,
    variables: &mut Variables,
    functions: &mut Functions,
    io: &mut Effects,
    fuel: u64,
) -> (r: Result<(), Error>)
    ensures
        ({
            let out = eval_block(
                tokens.deep_view(),
                abs_state(*old(stack), *old(variables), *old(functions), *old(io)),
                fuel as nat,
            );
            eval_matches(
                out,
                r,
                abs_state(*final(stack), *final(variables), *final(functions), *final(io)),
            )
        }),
    decreases fuel, 0int,
{
    if fuel == 0 {
        return Result::Err(Error::OutOfFuel);
    }
    run_tokens(tokens, stack, variables, functions, io, fuel - 1)
}

/// The `if` operator: pops the condition, reads both branches by lookahead,
/// and runs the first branch on true, the second on false.
#[verifier::loop_isolation(false)]
pub fn if_block(
    tokens: &Vec<String>,
    pos: &mut usize,
    stack: &mut Stack,
    variables: &mut Variables,
    functions: &mut Functions,
    io: &mut Effects,
    fuel: u64,
) -> (r: Result<(), Error>)
    requires
        *old(pos) <= tokens@.len(),
    ensures
        ({
            let (out, n) = eval_if(
                tokens.deep_view(),
                *old(pos) as int,
                abs_state(*old(stack), *old(variables), *old(functions), *old(io)),
                fuel as nat,
            );
            *final(pos) == n && eval_matches(
                out,
                r,
                abs_state(*final(stack), *final(variables), *final(functions), *final(io)),
            )
        }),
        *old(pos) <= *final(pos) <= tokens@.len(),
    decreases fuel, 2int,
{
    let val = match stack.pop() {
        Result::Ok(v) => v,
        Result::Err(e) => {
            return Result::Err(e);
        },
    };
    let b1 = read_branch(tokens, pos);
    let b2 = read_branch(tokens, pos);
    let c = match val {
        Value::Boolean(c) => c,
        _ => {
            return Result::Err(Error::TypeMismatch);
        },
    };
    let chosen = if c {
        b1
    } else {
        b2
    };
    run_block(&chosen, stack, variables, functions, io, fuel)
}

/// The `times` operator: reads one branch, pops the count, and runs the
/// branch repeatedly, decrementing the count after each run until it is
/// exactly zero — so the branch runs at least once.
#[verifier::loop_isolation(false)]
pub fn times(
    tokens: &Vec<String>,
    pos: &mut usize,
    stack: &mut Stack,
    variables: &mut Variables,
    functions: &mut Functions,
    io: &mut Effects,
    fuel: u64,
) -> (r: Result<(), Error>)
    requires
        *old(pos) <= tokens@.len(),
    ensures
        ({
            let (out, n) = eval_times_op(
                tokens.deep_view(),
                *old(pos) as int,
                abs_state(*old(stack), *old(variables), *old(functions), *old(io)),
                fuel as nat,
            );
            *final(pos) == n && eval_matches(
                out,
                r,
                abs_state(*final(stack), *final(variables), *final(functions), *final(io)),
            )
        }),
        *old(pos) <= *final(pos) <= tokens@.len(),
    decreases fuel, 2int,
{
    if *pos >= tokens.len() {
        return Result::Err(Error::MalformedControlFlow);
    }
    let b = read_branch(tokens, pos);
    let n_v = match stack.pop() {
        Result::Ok(v) => v,
        Result::Err(e) => {
            return Result::Err(e);
        },
    };
    let mut n = match n_v {
        Value::Int(n) => n,
        _ => {
            return Result::Err(Error::TypeMismatch);
        },
    };
    let mut fuel_cur = fuel;
    let ghost goal = eval_times(
        b.deep_view(),
        n,
        abs_state(*stack, *variables, *functions, *io),
        fuel as nat,
    );
    loop
        invariant
            fuel_cur <= fuel,
            eval_times(
                b.deep_view(),
                n,
                abs_state(*stack, *variables, *functions, *io),
                fuel_cur as nat,
            ) == goal,
        decreases fuel_cur,
    {
        if fuel_cur == 0 {
            return Result::Err(Error::OutOfFuel);
        }
        match run_block(&b, stack, variables, functions, io, fuel_cur) {
            Result::Ok(_) => {},
            Result::Err(e) => {
                return Result::Err(e);
            },
        }
        n = n.wrapping_sub(1);
        if n == 0 {
            return Result::Ok(());
        }
        fuel_cur = fuel_cur - 1;
    }
}

/// The `loop` operator: reads a condition branch and a body branch, then
/// runs the condition, pops its boolean, and either stops (true) or runs
/// the body and repeats (false).
#[verifier::loop_isolation(false)]
pub fn loop_op(
    tokens: &Vec<String>,
    pos: &mut usize,
    stack: &mut Stack,
    variables: &mut Variables,
    functions: &mut Functions,
    io: &mut Effects,
    fuel: u64,
) -> (r: Result<(), Error>)
    requires
        *old(pos) <= tokens@.len(),
    ensures
        ({
            let (out, n) = eval_loop_op(
                tokens.deep_view(),
                *old(pos) as int,
                abs_state(*old(stack), *old(variables), *old(functions), *old(io)),
                fuel as nat,
            );
            *final(pos) == n && eval_matches(
                out,
                r,
                abs_state(*final(stack), *final(variables), *final(functions), *final(io)),
            )
        }),
        *old(pos) <= *final(pos) <= tokens@.len(),
    decreases fuel, 2int,
{
    if *pos >= tokens.len() {
        return Result::Err(Error::MalformedControlFlow);
    }
    let c = read_branch(tokens, pos);
    if *pos >= tokens.len() {
        return Result::Err(Error::MalformedControlFlow);
    }
    let b = read_branch(tokens, pos);
    let mut fuel_cur = fuel;
    let ghost goal = eval_loop(
        c.deep_view(),
        b.deep_view(),
        abs_state(*stack, *variables, *functions, *io),
        fuel as nat,
    );
    loop
        invariant
            fuel_cur <= fuel,
            eval_loop(
                c.deep_view(),
                b.deep_view(),
                abs_state(*stack, *variables, *functions, *io),
                fuel_cur as nat,
            ) == goal,
        decreases fuel_cur,
    {
        if fuel_cur == 0 {
            return Result::Err(Error::OutOfFuel);
        }
        match run_block(&c, stack, variables, functions, io, fuel_cur) {
            Result::Ok(_) => {},
            Result::Err(e) => {
                return Result::Err(e);
            },
        }
        match stack.pop() {
            Result::Err(e) => {
                return Result::Err(e);
            },
            Result::Ok(Value::Boolean(true)) => {
                return Result::Ok(());
            },
            Result::Ok(Value::Boolean(false)) => {
                match run_block(&b, stack, variables, functions, io, fuel_cur) {
                    Result::Ok(_) => {},
                    Result::Err(e) => {
                        return Result::Err(e);
                    },
                }
            },
            Result::Ok(_) => {
                return Result::Err(Error::TypeMismatch);
            },
        }
        fuel_cur = fuel_cur - 1;
    }
}

/// The `each` operator: pops a list, reads one branch, and runs the branch
/// once per element, left to right, with the element pushed first.
#[verifier::loop_isolation(false)]
pub fn each(
    tokens: &Vec<String>,
    pos: &mut usize,
    stack: &mut Stack,
    variables: &mut Variables,
    functions: &mut Functions,
    io: &mut Effects,
    fuel: u64,
) -> (r: Result<(), Error>)
    requires
        *old(pos) <= tokens@.len(),
    ensures
        ({
            let (out, n) = eval_each_op(
                tokens.deep_view(),
                *old(pos) as int,
                abs_state(*old(stack), *old(variables), *old(functions), *old(io)),
                fuel as nat,
            );
            *final(pos) == n && eval_matches(
                out,
                r,
                abs_state(*final(stack), *final(variables), *final(functions), *final(io)),
            )
        }),
        *old(pos) <= *final(pos) <= tokens@.len(),
    decreases fuel, 2int,
{
    let lv = match stack.pop() {
        Result::Ok(v) => v,
        Result::Err(e) => {
            return Result::Err(e);
        },
    };
    match &lv {
        Value::List(_) => {},
        _ => {
            return Result::Err(Error::TypeMismatch);
        },
    }
    if *pos >= tokens.len() {
        return Result::Err(Error::MalformedControlFlow);
    }
    let b = read_branch(tokens, pos);
    lv.each(stack, Value::Block(b), variables, functions, io, fuel)
}

/// The `map` operator: pops a list, reads one branch; each element is
/// pushed, the branch run, and one result popped; the results are pushed as
/// a single list of the same length.
#[verifier::loop_isolation(false)]
pub fn map(
    tokens: &Vec<String>,
    pos: &mut usize,
    stack: &mut Stack,
    variables: &mut Variables,
    functions: &mut Functions,
    io: &mut Effects,
    fuel: u64,
) -> (r: Result<(), Error>)
    requires
        *old(pos) <= tokens@.len(),
    ensures
        ({
            let (out, n) = eval_map_op(
                tokens.deep_view(),
                *old(pos) as int,
                abs_state(*old(stack), *old(variables), *old(functions), *old(io)),
                fuel as nat,
            );
            *final(pos) == n && eval_matches(
                out,
                r,
                abs_state(*final(stack), *final(variables), *final(functions), *final(io)),
            )
        }),
        *old(pos) <= *final(pos) <= tokens@.len(),
    decreases fuel, 2int,
{
    let lv = match stack.pop() {
        Result::Ok(v) => v,
        Result::Err(e) => {
            return Result::Err(e);
        },
    };
    match &lv {
        Value::List(_) => {},
        _ => {
            return Result::Err(Error::TypeMismatch);
        },
    }
    if *pos >= tokens.len() {
        return Result::Err(Error::MalformedControlFlow);
    }
    let b = read_branch(tokens, pos);
    lv.map(stack, Value::Block(b), variables, functions, io, fuel)
}

/// The `foldl` operator: pops the initial accumulator, pops a list, reads
/// one branch, and folds the branch over the elements left to right.
#[verifier::loop_isolation(false)]
pub fn foldl(
    tokens: &Vec<String>,
    pos: &mut usize,
    stack: &mut Stack,
    variables: &mut Variables,
    functions: &mut Functions,
    io: &mut Effects,
    fuel: u64,
) -> (r: Result<(), Error>)
    requires
        *old(pos) <= tokens@.len(),
    ensures
        ({
            let (out, n) = eval_foldl_op(
                tokens.deep_view(),
                *old(pos) as int,
                abs_state(*old(stack), *old(variables), *old(functions), *old(io)),
                fuel as nat,
            );
            *final(pos) == n && eval_matches(
                out,
                r,
                abs_state(*final(stack), *final(variables), *final(functions), *final(io)),
            )
        }),
        *old(pos) <= *final(pos) <= tokens@.len(),
    decreases fuel, 2int,
{
    let start_value = match stack.pop() {
        Result::Ok(v) => v,
        Result::Err(e) => {
            return Result::Err(e);
        },
    };
    let lv = match stack.pop() {
        Result::Ok(v) => v,
        Result::Err(e) => {
            return Result::Err(e);
        },
    };
    proof {
        assert(old(stack)@.drop_last().drop_last() =~= old(stack)@.take(old(stack)@.len() - 2));
    }
    match &lv {
        Value::List(_) => {},
        _ => {
            return Result::Err(Error::TypeMismatch);
        },
    }
    if *pos >= tokens.len() {
        return Result::Err(Error::MalformedControlFlow);
    }
    let b = read_branch(tokens, pos);
    lv.foldl(stack, Value::Block(b), start_value, variables, functions, io, fuel)
}

impl Value {
    /// Runs a block once per element of this list, pushing the element
    /// first.
    #[verifier::loop_isolation(false)]
    pub fn each(
        self,
        stack: &mut Stack,
        block: Self,
        variables: &mut Variables,
        functions: &mut Functions,
        io: &mut Effects,
        fuel: u64,
    ) -> (r: Result<(), Error>)
        ensures
            ({
                let st0 = abs_state(*old(stack), *old(variables), *old(functions), *old(io));
                let now = abs_state(*final(stack), *final(variables), *final(functions), *final(io));
                match (self@, block@) {
                    (AbsValue::List(items), AbsValue::Block(bs)) => eval_matches(
                        eval_each(items, bs, st0, fuel as nat),
                        r,
                        now,
                    ),
                    _ => r == Result::<(), Error>::Err(Error::TypeMismatch) && now == st0,
                }
            }),
        decreases fuel, 1int,
    {
        broadcast use crate::types::group_abs_seq;
        match (self, block) {
            (Value::List(list), Value::Block(bts)) => {
                let ghost items = crate::types::abs_seq(list@);
                let ghost bs = bts.deep_view();
                let ghost goal = eval_each(
                    items,
                    bs,
                    abs_state(*stack, *variables, *functions, *io),
                    fuel as nat,
                );
                let mut i: usize = 0;
                let mut fuel_cur = fuel;
                proof {
                    assert(items.skip(0) =~= items);
                }
                while i < list.len()
                    invariant
                        0 <= i <= list@.len(),
                        fuel_cur <= fuel,
                        eval_each(
                            items.skip(i as int),
                            bs,
                            abs_state(*stack, *variables, *functions, *io),
                            fuel_cur as nat,
                        ) == goal,
                    decreases list@.len() - i,
                {
                    if fuel_cur == 0 {
                        return Result::Err(Error::OutOfFuel);
                    }
                    stack.push(list[i].clone_value());
                    proof {
                        assert(items.skip(i as int)[0] == items[i as int]);
                    }
                    match run_block(&bts, stack, variables, functions, io, fuel_cur) {
                        Result::Ok(_) => {},
                        Result::Err(e) => {
                            return Result::Err(e);
                        },
                    }
                    proof {
                        assert(items.skip(i as int).drop_first() =~= items.skip(i + 1));
                    }
                    fuel_cur = fuel_cur - 1;
                    i = i + 1;
                }
                proof {
                    assert(items.skip(list@.len() as int) =~= Seq::<AbsValue>::empty());
                }
                Result::Ok(())
            },
            _ => Result::Err(Error::TypeMismatch),
        }
    }

    /// Runs a block once per element of this list, collecting one result
    /// per element into a new list of the same length.
    #[verifier::loop_isolation(false)]
    pub fn map(
        self,
        stack: &mut Stack,
        block: Self,
        variables: &mut Variables,
        functions: &mut Functions,
        io: &mut Effects,
        fuel: u64,
    ) -> (r: Result<(), Error>)
        ensures
            ({
                let st0 = abs_state(*old(stack), *old(variables), *old(functions), *old(io));
                let now = abs_state(*final(stack), *final(variables), *final(functions), *final(io));
                match (self@, block@) {
                    (AbsValue::List(items), AbsValue::Block(bs)) => eval_matches(
                        eval_map(items, bs, Seq::empty(), st0, fuel as nat),
                        r,
                        now,
                    ),
                    _ => r == Result::<(), Error>::Err(Error::TypeMismatch) && now == st0,
                }
            }),
        decreases fuel, 1int,
    {
        broadcast use crate::types::group_abs_seq;
        match (self, block) {
            (Value::List(list), Value::Block(bts)) => {
                let ghost items = crate::types::abs_seq(list@);
                let ghost bs = bts.deep_view();
                let ghost goal = eval_map(
                    items,
                    bs,
                    Seq::empty(),
                    abs_state(*stack, *variables, *functions, *io),
                    fuel as nat,
                );
                let mut result: Vec<Value> = Vec::new();
                let mut i: usize = 0;
                let mut fuel_cur = fuel;
                proof {
                    assert(crate::types::abs_seq(result@) =~= Seq::<AbsValue>::empty());
                }
                proof {
                    assert(items.skip(0) =~= items);
                }
                while i < list.len()
                    invariant
                        0 <= i <= list@.len(),
                        fuel_cur <= fuel,
                        eval_map(
                            items.skip(i as int),
                            bs,
                            crate::types::abs_seq(result@),
                            abs_state(*stack, *variables, *functions, *io),
                            fuel_cur as nat,
                        ) == goal,
                    decreases list@.len() - i,
                {
                    if fuel_cur == 0 {
                        return Result::Err(Error::OutOfFuel);
                    }
                    stack.push(list[i].clone_value());
                    proof {
                        assert(items.skip(i as int)[0] == items[i as int]);
                    }
                    match run_block(&bts, stack, variables, functions, io, fuel_cur) {
                        Result::Ok(_) => {},
                        Result::Err(e) => {
                            return Result::Err(e);
                        },
                    }
                    let popped = match stack.pop() {
                        Result::Ok(v) => v,
                        Result::Err(e) => {
                            return Result::Err(e);
                        },
                    };
                    result.push(popped);
                    proof {
                        assert(items.skip(i as int).drop_first() =~= items.skip(i + 1));
                    }
                    fuel_cur = fuel_cur - 1;
                    i = i + 1;
                }
                proof {
                    assert(items.skip(list@.len() as int) =~= Seq::<AbsValue>::empty());
                }
                stack.push(Value::List(result));
                Result::Ok(())
            },
            _ => Result::Err(Error::TypeMismatch),
        }
    }

    /// Folds a block over this list from the left: the accumulator and the
    /// element are pushed, the block run, and the new accumulator popped;
    /// the final accumulator is pushed.
    #[verifier::loop_isolation(false)]
    pub fn foldl(
        self,
        stack: &mut Stack,
        block: Self,
        start_value: Self,
        variables: &mut Variables,
        functions: &mut Functions,
        io: &mut Effects,
        fuel: u64,
    ) -> (r: Result<(), Error>)
        ensures
            ({
                let st0 = abs_state(*old(stack), *old(variables), *old(functions), *old(io));
                let now = abs_state(*final(stack), *final(variables), *final(functions), *final(io));
                match (self@, block@) {
                    (AbsValue::List(items), AbsValue::Block(bs)) => eval_matches(
                        eval_foldl(items, bs, start_value@, st0, fuel as nat),
                        r,
                        now,
                    ),
                    _ => r == Result::<(), Error>::Err(Error::TypeMismatch) && now == st0,
                }
            }),
        decreases fuel, 1int,
    {
        broadcast use crate::types::group_abs_seq;
        match (self, block) {
            (Value::List(list), Value::Block(bts)) => {
                let ghost items = crate::types::abs_seq(list@);
                let ghost bs = bts.deep_view();
                let ghost goal = eval_foldl(
                    items,
                    bs,
                    start_value@,
                    abs_state(*stack, *variables, *functions, *io),
                    fuel as nat,
                );
                let mut acc = start_value;
                let mut i: usize = 0;
                let mut fuel_cur = fuel;
                proof {
                    assert(items.skip(0) =~= items);
                }
                while i < list.len()
                    invariant
                        0 <= i <= list@.len(),
                        fuel_cur <= fuel,
                        eval_foldl(
                            items.skip(i as int),
                            bs,
                            acc@,
                            abs_state(*stack, *variables, *functions, *io),
                            fuel_cur as nat,
                        ) == goal,
                    decreases list@.len() - i,
                {
                    if fuel_cur == 0 {
                        return Result::Err(Error::OutOfFuel);
                    }
                    let acc_copy = acc.clone_value();
                    stack.push(acc_copy);
                    stack.push(list[i].clone_value());
                    proof {
                        assert(items.skip(i as int)[0] == items[i as int]);
                    }
                    match run_block(&bts, stack, variables, functions, io, fuel_cur) {
                        Result::Ok(_) => {},
                        Result::Err(e) => {
                            return Result::Err(e);
                        },
                    }
                    acc = match stack.pop() {
                        Result::Ok(v) => v,
                        Result::Err(e) => {
                            return Result::Err(e);
                        },
                    };
                    proof {
                        assert(items.skip(i as int).drop_first() =~= items.skip(i + 1));
                    }
                    fuel_cur = fuel_cur - 1;
                    i = i + 1;
                }
                proof {
                    assert(items.skip(list@.len() as int) =~= Seq::<AbsValue>::empty());
                }
                stack.push(acc);
                Result::Ok(())
            },
            _ => Result::Err(Error::TypeMismatch),
        }
    }
}

/// Dispatches the arithmetic, comparison and stack-shuffling operator
/// tokens; answers `None` for a token that is none of them.
#[verifier::rlimit(100)]
fn run_ops_a(
    tokens: &Vec<String>,
    pos: &mut usize,
    stack: &mut Stack,
    variables: &mut Variables,
    functions: &mut Functions,
    io: &mut Effects,
    fuel: u64,
) -> (r: Option<Result<(), Error>>)
    requires
        *old(pos) < tokens@.len(),
        !abs_state(*old(stack), *old(variables), *old(functions), *old(io)).vars.contains_key(
            tokens.deep_view()[*old(pos) as int],
        ),
        !abs_state(*old(stack), *old(variables), *old(functions), *old(io)).funs.contains_key(
            tokens.deep_view()[*old(pos) as int],
        ),
    ensures
        ({
            let ts = tokens.deep_view();
            let p0 = *old(pos) as int;
            let t = ts[p0];
            let st0 = abs_state(*old(stack), *old(variables), *old(functions), *old(io));
            let now = abs_state(*final(stack), *final(variables), *final(functions), *final(io));
            match r {
                Option::None => *final(pos) == *old(pos) && now == st0 && !(t == "+"@ || t == "-"@ || t == "*"@ || t == "/"@ || t == "div"@ || t == "<"@ || t == ">"@ || t == "=="@ || t == "dup"@ || t == "swap"@ || t == "pop"@ || t == "words"@),
                Option::Some(res) => (t == "+"@ || t == "-"@ || t == "*"@ || t == "/"@ || t == "div"@ || t == "<"@ || t == ">"@ || t == "=="@ || t == "dup"@ || t == "swap"@ || t == "pop"@ || t == "words"@) && (match res {
                    Result::Ok(_) => p0 < *final(pos) <= ts.len() && eval_tokens(
                        ts,
                        p0,
                        st0,
                        fuel as nat,
                    ) == eval_tokens(ts, *final(pos) as int, now, fuel as nat),
                    Result::Err(e) => eval_tokens(ts, p0, st0, fuel as nat) == (Eval::Fail {
                        st: now,
                        err: e,
                    }),
                }),
            }
        }),
{
    let ghost ts = tokens.deep_view();
    let ghost here = *old(pos) as int;
    let ghost st_here = abs_state(*stack, *variables, *functions, *io);
    let ghost fuel_n = fuel as nat;
    let token = tokens[*pos].clone();
    let tok = token.as_str();
    proof {
        vstd::std_specs::vec::axiom_spec_len(tokens);
        assert(ts[here] == token@);
    }
        if text::str_is(tok, "+") {
            let res = arithmetic::add(stack);
            proof {
                assert(abs_state(*stack, *variables, *functions, *io) =~= st_here.with_stack(
                    arithmetic::add_step(st_here.stack).0,
                ));
                assert(eval_tokens(ts, here, st_here, fuel_n) == step_continue(
                    ts,
                    here,
                    st_here,
                    fuel_n,
                    arithmetic::add_step(st_here.stack),
                ));
            }
            match res {
                Result::Ok(_) => {
                    *pos = *pos + 1;
                    return Option::Some(Result::Ok(()));
                },
                Result::Err(e) => {
                    return Option::Some(Result::Err(e));
                },
            }
        }
        if text::str_is(tok, "-") {
            let res = arithmetic::sub(stack);
            proof {
                assert(abs_state(*stack, *variables, *functions, *io) =~= st_here.with_stack(
                    arithmetic::sub_step(st_here.stack).0,
                ));
                assert(eval_tokens(ts, here, st_here, fuel_n) == step_continue(
                    ts,
                    here,
                    st_here,
                    fuel_n,
                    arithmetic::sub_step(st_here.stack),
                ));
            }
            match res {
                Result::Ok(_) => {
                    *pos = *pos + 1;
                    return Option::Some(Result::Ok(()));
                },
                Result::Err(e) => {
                    return Option::Some(Result::Err(e));
                },
            }
        }
        if text::str_is(tok, "*") {
            let res = arithmetic::mul(stack);
            proof {
                assert(abs_state(*stack, *variables, *functions, *io) =~= st_here.with_stack(
                    arithmetic::mul_step(st_here.stack).0,
                ));
                assert(eval_tokens(ts, here, st_here, fuel_n) == step_continue(
                    ts,
                    here,
                    st_here,
                    fuel_n,
                    arithmetic::mul_step(st_here.stack),
                ));
            }
            match res {
                Result::Ok(_) => {
                    *pos = *pos + 1;
                    return Option::Some(Result::Ok(()));
                },
                Result::Err(e) => {
                    return Option::Some(Result::Err(e));
                },
            }
        }
        if text::str_is(tok, "/") {
            let res = arithmetic::div(stack);
            proof {
                assert(abs_state(*stack, *variables, *functions, *io) =~= st_here.with_stack(
                    arithmetic::div_step(st_here.stack).0,
                ));
                assert(eval_tokens(ts, here, st_here, fuel_n) == step_continue(
                    ts,
                    here,
                    st_here,
                    fuel_n,
                    arithmetic::div_step(st_here.stack),
                ));
            }
            match res {
                Result::Ok(_) => {
                    *pos = *pos + 1;
                    return Option::Some(Result::Ok(()));
                },
                Result::Err(e) => {
                    return Option::Some(Result::Err(e));
                },
            }
        }
        if text::str_is(tok, "div") {
            let res = arithmetic::int_div(stack);
            proof {
                assert(abs_state(*stack, *variables, *functions, *io) =~= st_here.with_stack(
                    arithmetic::div_step(st_here.stack).0,
                ));
                assert(eval_tokens(ts, here, st_here, fuel_n) == step_continue(
                    ts,
                    here,
                    st_here,
                    fuel_n,
                    arithmetic::div_step(st_here.stack),
                ));
            }
            match res {
                Result::Ok(_) => {
                    *pos = *pos + 1;
                    return Option::Some(Result::Ok(()));
                },
                Result::Err(e) => {
                    return Option::Some(Result::Err(e));
                },
            }
        }
        if text::str_is(tok, "<") {
            let res = arithmetic::lt(stack);
            proof {
                assert(abs_state(*stack, *variables, *functions, *io) =~= st_here.with_stack(
                    arithmetic::lt_step(st_here.stack).0,
                ));
                assert(eval_tokens(ts, here, st_here, fuel_n) == step_continue(
                    ts,
                    here,
                    st_here,
                    fuel_n,
                    arithmetic::lt_step(st_here.stack),
                ));
            }
            match res {
                Result::Ok(_) => {
                    *pos = *pos + 1;
                    return Option::Some(Result::Ok(()));
                },
                Result::Err(e) => {
                    return Option::Some(Result::Err(e));
                },
            }
        }
        if text::str_is(tok, ">") {
            let res = arithmetic::gt(stack);
            proof {
                assert(abs_state(*stack, *variables, *functions, *io) =~= st_here.with_stack(
                    arithmetic::gt_step(st_here.stack).0,
                ));
                assert(eval_tokens(ts, here, st_here, fuel_n) == step_continue(
                    ts,
                    here,
                    st_here,
                    fuel_n,
                    arithmetic::gt_step(st_here.stack),
                ));
            }
            match res {
                Result::Ok(_) => {
                    *pos = *pos + 1;
                    return Option::Some(Result::Ok(()));
                },
                Result::Err(e) => {
                    return Option::Some(Result::Err(e));
                },
            }
        }
        if text::str_is(tok, "==") {
            let res = arithmetic::eq(stack);
            proof {
                assert(abs_state(*stack, *variables, *functions, *io) =~= st_here.with_stack(
                    arithmetic::eq_step(st_here.stack).0,
                ));
                assert(eval_tokens(ts, here, st_here, fuel_n) == step_continue(
                    ts,
                    here,
                    st_here,
                    fuel_n,
                    arithmetic::eq_step(st_here.stack),
                ));
            }
            match res {
                Result::Ok(_) => {
                    *pos = *pos + 1;
                    return Option::Some(Result::Ok(()));
                },
                Result::Err(e) => {
                    return Option::Some(Result::Err(e));
                },
            }
        }
        if text::str_is(tok, "dup") {
            let res = stack.dup();
            proof {
                if st_here.stack.len() > 0 {
                    assert(abs_state(*stack, *variables, *functions, *io) =~= st_here.push(
                        st_here.stack.last(),
                    ));
                }
            }
            match res {
                Result::Ok(_) => {
                    *pos = *pos + 1;
                    return Option::Some(Result::Ok(()));
                },
                Result::Err(e) => {
                    return Option::Some(Result::Err(e));
                },
            }
        }
        if text::str_is(tok, "swap") {
            let res = stack.swap();
            proof {
                let n = st_here.stack.len();
                if n >= 2 {
                    assert(abs_state(*stack, *variables, *functions, *io) =~= st_here.with_stack(
                        st_here.stack.take(n - 2).push(st_here.stack.last()).push(
                            st_here.stack[n - 2],
                        ),
                    ));
                } else if n == 1 {
                    assert(abs_state(*stack, *variables, *functions, *io) =~= st_here.drop_top());
                }
            }
            match res {
                Result::Ok(_) => {
                    *pos = *pos + 1;
                    return Option::Some(Result::Ok(()));
                },
                Result::Err(e) => {
                    return Option::Some(Result::Err(e));
                },
            }
        }
        if text::str_is(tok, "pop") {
            let res = stack.pop();
            proof {
                if st_here.stack.len() > 0 {
                    assert(abs_state(*stack, *variables, *functions, *io) =~= st_here.drop_top());
                }
            }
            match res {
                Result::Ok(_) => {
                    *pos = *pos + 1;
                    return Option::Some(Result::Ok(()));
                },
                Result::Err(e) => {
                    return Option::Some(Result::Err(e));
                },
            }
        }
        if text::str_is(tok, "words") {
            let res = Value::words(stack);
            proof {
                assert(abs_state(*stack, *variables, *functions, *io) =~= st_here.with_stack(
                    lists::words_step(st_here.stack).0,
                ));
                assert(eval_tokens(ts, here, st_here, fuel_n) == step_continue(
                    ts,
                    here,
                    st_here,
                    fuel_n,
                    lists::words_step(st_here.stack),
                ));
            }
            match res {
                Result::Ok(_) => {
                    *pos = *pos + 1;
                    return Option::Some(Result::Ok(()));
                },
                Result::Err(e) => {
                    return Option::Some(Result::Err(e));
                },
            }
        }
        Option::None
}

/// Dispatches the input/output, parsing and logic operator tokens;
/// answers `None` for a token that is none of them.
#[verifier::rlimit(100)]
fn run_ops_b(
    tokens: &Vec<String>,
    pos: &mut usize,
    stack: &mut Stack,
    variables: &mut Variables,
    functions: &mut Functions,
    io: &mut Effects,
    fuel: u64,
) -> (r: Option<Result<(), Error>>)
    requires
        *old(pos) < tokens@.len(),
        !abs_state(*old(stack), *old(variables), *old(functions), *old(io)).vars.contains_key(
            tokens.deep_view()[*old(pos) as int],
        ),
        !abs_state(*old(stack), *old(variables), *old(functions), *old(io)).funs.contains_key(
            tokens.deep_view()[*old(pos) as int],
        ),
        ({
            let t = tokens.deep_view()[*old(pos) as int];
            !(t == "+"@ || t == "-"@ || t == "*"@ || t == "/"@ || t == "div"@ || t == "<"@ || t == ">"@ || t == "=="@ || t == "dup"@ || t == "swap"@ || t == "pop"@ || t == "words"@)
        }),
    ensures
        ({
            let ts = tokens.deep_view();
            let p0 = *old(pos) as int;
            let t = ts[p0];
            let st0 = abs_state(*old(stack), *old(variables), *old(functions), *old(io));
            let now = abs_state(*final(stack), *final(variables), *final(functions), *final(io));
            match r {
                Option::None => *final(pos) == *old(pos) && now == st0 && !(t == "print"@ || t == "read"@ || t == "parseInteger"@ || t == "parseFloat"@ || t == "&&"@ || t == "||"@ || t == "not"@),
                Option::Some(res) => (t == "print"@ || t == "read"@ || t == "parseInteger"@ || t == "parseFloat"@ || t == "&&"@ || t == "||"@ || t == "not"@) && (match res {
                    Result::Ok(_) => p0 < *final(pos) <= ts.len() && eval_tokens(
                        ts,
                        p0,
                        st0,
                        fuel as nat,
                    ) == eval_tokens(ts, *final(pos) as int, now, fuel as nat),
                    Result::Err(e) => eval_tokens(ts, p0, st0, fuel as nat) == (Eval::Fail {
                        st: now,
                        err: e,
                    }),
                }),
            }
        }),
{
    let ghost ts = tokens.deep_view();
    let ghost here = *old(pos) as int;
    let ghost st_here = abs_state(*stack, *variables, *functions, *io);
    let ghost fuel_n = fuel as nat;
    let token = tokens[*pos].clone();
    let tok = token.as_str();
    proof {
        vstd::std_specs::vec::axiom_spec_len(tokens);
        assert(ts[here] == token@);
    }
        if text::str_is(tok, "print") {
            let res = print_op(stack, variables, io, false);
            proof {
                if st_here.stack.len() > 0 {
                    let shown = render_with_vars(st_here.stack.last(), st_here.vars);
                    assert(st_here.output + shown + Seq::<char>::empty() =~= st_here.output
                        + shown);
                    assert(abs_state(*stack, *variables, *functions, *io) =~= AbsState {
                        stack: st_here.stack.drop_last(),
                        output: st_here.output + shown,
                        ..st_here
                    });
                }
            }
            match res {
                Result::Ok(_) => {
                    *pos = *pos + 1;
                    return Option::Some(Result::Ok(()));
                },
                Result::Err(e) => {
                    return Option::Some(Result::Err(e));
                },
            }
        }
        if text::str_is(tok, "read") {
            let res = read_op(stack, io);
            proof {
                if st_here.input.len() > 0 {
                    assert(abs_state(*stack, *variables, *functions, *io) =~= AbsState {
                        stack: st_here.stack.push(AbsValue::Str(text::trim_s(st_here.input[0]))),
                        input: st_here.input.drop_first(),
                        ..st_here
                    });
                } else {
                    assert(abs_state(*stack, *variables, *functions, *io) =~= st_here.push(
                        AbsValue::Str(Seq::empty()),
                    ));
                }
            }
            match res {
                Result::Ok(_) => {
                    *pos = *pos + 1;
                    return Option::Some(Result::Ok(()));
                },
                Result::Err(e) => {
                    return Option::Some(Result::Err(e));
                },
            }
        }
        if text::str_is(tok, "parseInteger") {
            let res = lists::parse_integer_op(stack);
            proof {
                assert(abs_state(*stack, *variables, *functions, *io) =~= st_here.with_stack(
                    lists::parse_integer_step(st_here.stack).0,
                ));
                assert(eval_tokens(ts, here, st_here, fuel_n) == step_continue(
                    ts,
                    here,
                    st_here,
                    fuel_n,
                    lists::parse_integer_step(st_here.stack),
                ));
            }
            match res {
                Result::Ok(_) => {
                    *pos = *pos + 1;
                    return Option::Some(Result::Ok(()));
                },
                Result::Err(e) => {
                    return Option::Some(Result::Err(e));
                },
            }
        }
        if text::str_is(tok, "parseFloat") {
            let res = parse_float_op(stack);
            proof {
                assert(abs_state(*stack, *variables, *functions, *io) =~= st_here.with_stack(
                    parse_float_step(st_here.stack).0,
                ));
                assert(eval_tokens(ts, here, st_here, fuel_n) == step_continue(
                    ts,
                    here,
                    st_here,
                    fuel_n,
                    parse_float_step(st_here.stack),
                ));
            }
            match res {
                Result::Ok(_) => {
                    *pos = *pos + 1;
                    return Option::Some(Result::Ok(()));
                },
                Result::Err(e) => {
                    return Option::Some(Result::Err(e));
                },
            }
        }
        if text::str_is(tok, "&&") {
            let res = logic::and(stack);
            proof {
                assert(abs_state(*stack, *variables, *functions, *io) =~= st_here.with_stack(
                    logic::and_step(st_here.stack).0,
                ));
                assert(eval_tokens(ts, here, st_here, fuel_n) == step_continue(
                    ts,
                    here,
                    st_here,
                    fuel_n,
                    logic::and_step(st_here.stack),
                ));
            }
            match res {
                Result::Ok(_) => {
                    *pos = *pos + 1;
                    return Option::Some(Result::Ok(()));
                },
                Result::Err(e) => {
                    return Option::Some(Result::Err(e));
                },
            }
        }
        if text::str_is(tok, "||") {
            let res = logic::or(stack);
            proof {
                assert(abs_state(*stack, *variables, *functions, *io) =~= st_here.with_stack(
                    logic::or_step(st_here.stack).0,
                ));
                assert(eval_tokens(ts, here, st_here, fuel_n) == step_continue(
                    ts,
                    here,
                    st_here,
                    fuel_n,
                    logic::or_step(st_here.stack),
                ));
            }
            match res {
                Result::Ok(_) => {
                    *pos = *pos + 1;
                    return Option::Some(Result::Ok(()));
                },
                Result::Err(e) => {
                    return Option::Some(Result::Err(e));
                },
            }
        }
        if text::str_is(tok, "not") {
            let res = logic::not(stack);
            proof {
                assert(abs_state(*stack, *variables, *functions, *io) =~= st_here.with_stack(
                    logic::not_step(st_here.stack).0,
                ));
                assert(eval_tokens(ts, here, st_here, fuel_n) == step_continue(
                    ts,
                    here,
                    st_here,
                    fuel_n,
                    logic::not_step(st_here.stack),
                ));
            }
            match res {
                Result::Ok(_) => {
                    *pos = *pos + 1;
                    return Option::Some(Result::Ok(()));
                },
                Result::Err(e) => {
                    return Option::Some(Result::Err(e));
                },
            }
        }
        Option::None
}

/// Dispatches the reader and sequence operator tokens; answers `None` for a
/// token that is none of them.
#[verifier::rlimit(100)]
fn run_ops_b2(
    tokens: &Vec<String>,
    pos: &mut usize,
    stack: &mut Stack,
    variables: &mut Variables,
    functions: &mut Functions,
    io: &mut Effects,
    fuel: u64,
) -> (r: Option<Result<(), Error>>)
    requires
        *old(pos) < tokens@.len(),
        !abs_state(*old(stack), *old(variables), *old(functions), *old(io)).vars.contains_key(
            tokens.deep_view()[*old(pos) as int],
        ),
        !abs_state(*old(stack), *old(variables), *old(functions), *old(io)).funs.contains_key(
            tokens.deep_view()[*old(pos) as int],
        ),
        ({
            let t = tokens.deep_view()[*old(pos) as int];
            !(t == "+"@ || t == "-"@ || t == "*"@ || t == "/"@ || t == "div"@ || t == "<"@ || t == ">"@ || t == "=="@ || t == "dup"@ || t == "swap"@ || t == "pop"@ || t == "words"@)
        }),
        ({
            let t = tokens.deep_view()[*old(pos) as int];
            !(t == "print"@ || t == "read"@ || t == "parseInteger"@ || t == "parseFloat"@ || t == "&&"@ || t == "||"@ || t == "not"@)
        }),
    ensures
        ({
            let ts = tokens.deep_view();
            let p0 = *old(pos) as int;
            let t = ts[p0];
            let st0 = abs_state(*old(stack), *old(variables), *old(functions), *old(io));
            let now = abs_state(*final(stack), *final(variables), *final(functions), *final(io));
            match r {
                Option::None => *final(pos) == *old(pos) && now == st0 && !(t == "["@ || t == "{"@ || t == "\""@ || t == "head"@ || t == "tail"@ || t == "empty"@ || t == "length"@ || t == "cons"@ || t == "append"@),
                Option::Some(res) => (t == "["@ || t == "{"@ || t == "\""@ || t == "head"@ || t == "tail"@ || t == "empty"@ || t == "length"@ || t == "cons"@ || t == "append"@) && (match res {
                    Result::Ok(_) => p0 < *final(pos) <= ts.len() && eval_tokens(
                        ts,
                        p0,
                        st0,
                        fuel as nat,
                    ) == eval_tokens(ts, *final(pos) as int, now, fuel as nat),
                    Result::Err(e) => eval_tokens(ts, p0, st0, fuel as nat) == (Eval::Fail {
                        st: now,
                        err: e,
                    }),
                }),
            }
        }),
{
    let ghost ts = tokens.deep_view();
    let ghost here = *old(pos) as int;
    let ghost st_here = abs_state(*stack, *variables, *functions, *io);
    let ghost fuel_n = fuel as nat;
    let token = tokens[*pos].clone();
    let tok = token.as_str();
    proof {
        vstd::std_specs::vec::axiom_spec_len(tokens);
        assert(ts[here] == token@);
    }
        if text::str_is(tok, "[") {
            *pos = *pos + 1;
            proof {
                reader::lemma_read_list_bounds(ts, here + 1, Seq::empty());
            }
            let rv = reader::read_list(tokens, pos);
            match rv {
                Result::Ok(v) => {
                    stack.push(v);
                    proof {
                        let (items, i2) = read_list_s(ts, here + 1, Seq::empty());
                        assert(abs_state(*stack, *variables, *functions, *io) =~= st_here.push(
                            AbsValue::List(items),
                        ));
                    }
                    return Option::Some(Result::Ok(()));
                },
                Result::Err(e) => {
                    return Option::Some(Result::Err(e));
                },
            }
        }
        if text::str_is(tok, "{") {
            *pos = *pos + 1;
            proof {
                reader::lemma_read_block_bounds(ts, here + 1, 1, Seq::empty());
            }
            let rv = reader::read_block(tokens, pos);
            match rv {
                Result::Ok(v) => {
                    stack.push(v);
                    proof {
                        let (b, i2) = read_block_s(ts, here + 1, 1, Seq::empty());
                        assert(abs_state(*stack, *variables, *functions, *io) =~= st_here.push(
                            AbsValue::Block(b),
                        ));
                    }
                    return Option::Some(Result::Ok(()));
                },
                Result::Err(e) => {
                    return Option::Some(Result::Err(e));
                },
            }
        }
        if text::str_is(tok, "\"") {
            *pos = *pos + 1;
            proof {
                reader::lemma_read_string_bounds(ts, here + 1, Seq::empty());
            }
            let v = reader::read_string(tokens, pos);
            stack.push(v);
            proof {
                let (s, i2) = read_string_s(ts, here + 1, Seq::empty());
                assert(abs_state(*stack, *variables, *functions, *io) =~= st_here.push(
                    AbsValue::Str(text::trim_s(s)),
                ));
            }
            return Option::Some(Result::Ok(()));
        }
        if text::str_is(tok, "head") {
            let res = lists::head(stack);
            proof {
                assert(abs_state(*stack, *variables, *functions, *io) =~= st_here.with_stack(
                    lists::head_step(st_here.stack).0,
                ));
                assert(eval_tokens(ts, here, st_here, fuel_n) == step_continue(
                    ts,
                    here,
                    st_here,
                    fuel_n,
                    lists::head_step(st_here.stack),
                ));
            }
            match res {
                Result::Ok(_) => {
                    *pos = *pos + 1;
                    return Option::Some(Result::Ok(()));
                },
                Result::Err(e) => {
                    return Option::Some(Result::Err(e));
                },
            }
        }
        if text::str_is(tok, "tail") {
            let res = lists::tail(stack);
            proof {
                assert(abs_state(*stack, *variables, *functions, *io) =~= st_here.with_stack(
                    lists::tail_step(st_here.stack).0,
                ));
                assert(eval_tokens(ts, here, st_here, fuel_n) == step_continue(
                    ts,
                    here,
                    st_here,
                    fuel_n,
                    lists::tail_step(st_here.stack),
                ));
            }
            match res {
                Result::Ok(_) => {
                    *pos = *pos + 1;
                    return Option::Some(Result::Ok(()));
                },
                Result::Err(e) => {
                    return Option::Some(Result::Err(e));
                },
            }
        }
        if text::str_is(tok, "empty") {
            let res = lists::empty(stack);
            proof {
                assert(abs_state(*stack, *variables, *functions, *io) =~= st_here.with_stack(
                    lists::empty_step(st_here.stack).0,
                ));
                assert(eval_tokens(ts, here, st_here, fuel_n) == step_continue(
                    ts,
                    here,
                    st_here,
                    fuel_n,
                    lists::empty_step(st_here.stack),
                ));
            }
            match res {
                Result::Ok(_) => {
                    *pos = *pos + 1;
                    return Option::Some(Result::Ok(()));
                },
                Result::Err(e) => {
                    return Option::Some(Result::Err(e));
                },
            }
        }
        if text::str_is(tok, "length") {
            let res = lists::lenght(stack);
            proof {
                assert(abs_state(*stack, *variables, *functions, *io) =~= st_here.with_stack(
                    lists::lenght_step(st_here.stack).0,
                ));
                assert(eval_tokens(ts, here, st_here, fuel_n) == step_continue(
                    ts,
                    here,
                    st_here,
                    fuel_n,
                    lists::lenght_step(st_here.stack),
                ));
            }
            match res {
                Result::Ok(_) => {
                    *pos = *pos + 1;
                    return Option::Some(Result::Ok(()));
                },
                Result::Err(e) => {
                    return Option::Some(Result::Err(e));
                },
            }
        }
        if text::str_is(tok, "cons") {
            let res = lists::cons(stack);
            proof {
                assert(abs_state(*stack, *variables, *functions, *io) =~= st_here.with_stack(
                    lists::cons_step(st_here.stack).0,
                ));
                assert(eval_tokens(ts, here, st_here, fuel_n) == step_continue(
                    ts,
                    here,
                    st_here,
                    fuel_n,
                    lists::cons_step(st_here.stack),
                ));
            }
            match res {
                Result::Ok(_) => {
                    *pos = *pos + 1;
                    return Option::Some(Result::Ok(()));
                },
                Result::Err(e) => {
                    return Option::Some(Result::Err(e));
                },
            }
        }
        if text::str_is(tok, "append") {
            let res = lists::append(stack);
            proof {
                assert(abs_state(*stack, *variables, *functions, *io) =~= st_here.with_stack(
                    lists::append_step(st_here.stack).0,
                ));
                assert(eval_tokens(ts, here, st_here, fuel_n) == step_continue(
                    ts,
                    here,
                    st_here,
                    fuel_n,
                    lists::append_step(st_here.stack),
                ));
            }
            match res {
                Result::Ok(_) => {
                    *pos = *pos + 1;
                    return Option::Some(Result::Ok(()));
                },
                Result::Err(e) => {
                    return Option::Some(Result::Err(e));
                },
            }
        }
        Option::None
}

/// Dispatches the control-flow, binding and execution operator tokens, and
/// pushes the literal any remaining token denotes.
#[verifier::rlimit(100)]
fn run_ops_c(
    tokens: &Vec<String>,
    pos: &mut usize,
    stack: &mut Stack,
    variables: &mut Variables,
    functions: &mut Functions,
    io: &mut Effects,
    fuel: u64,
) -> (r: Result<(), Error>)
    requires
        *old(pos) < tokens@.len(),
        !abs_state(*old(stack), *old(variables), *old(functions), *old(io)).vars.contains_key(
            tokens.deep_view()[*old(pos) as int],
        ),
        !abs_state(*old(stack), *old(variables), *old(functions), *old(io)).funs.contains_key(
            tokens.deep_view()[*old(pos) as int],
        ),
        ({
            let t = tokens.deep_view()[*old(pos) as int];
            !(t == "+"@ || t == "-"@ || t == "*"@ || t == "/"@ || t == "div"@ || t == "<"@ || t == ">"@ || t == "=="@ || t == "dup"@ || t == "swap"@ || t == "pop"@ || t == "words"@)
        }),
        ({
            let t = tokens.deep_view()[*old(pos) as int];
            !(t == "print"@ || t == "read"@ || t == "parseInteger"@ || t == "parseFloat"@ || t == "&&"@ || t == "||"@ || t == "not"@ || t == "["@ || t == "{"@ || t == "\""@ || t == "head"@ || t == "tail"@ || t == "empty"@ || t == "length"@ || t == "cons"@ || t == "append"@)
        }),
    ensures
        ({
            let ts = tokens.deep_view();
            let p0 = *old(pos) as int;
            let st0 = abs_state(*old(stack), *old(variables), *old(functions), *old(io));
            let now = abs_state(*final(stack), *final(variables), *final(functions), *final(io));
            match r {
                Result::Ok(_) => p0 < *final(pos) <= ts.len() && eval_tokens(
                    ts,
                    p0,
                    st0,
                    fuel as nat,
                ) == eval_tokens(ts, *final(pos) as int, now, fuel as nat),
                Result::Err(e) => eval_tokens(ts, p0, st0, fuel as nat) == (Eval::Fail {
                    st: now,
                    err: e,
                }),
            }
        }),
    decreases fuel, 3int,
{
    let ghost ts = tokens.deep_view();
    let ghost here = *old(pos) as int;
    let ghost st_here = abs_state(*stack, *variables, *functions, *io);
    let ghost fuel_n = fuel as nat;
    let token = tokens[*pos].clone();
    let tok = token.as_str();
    proof {
        vstd::std_specs::vec::axiom_spec_len(tokens);
        assert(ts[here] == token@);
    }
        if text::str_is(tok, "if") {
            *pos = *pos + 1;
            let res = if_block(tokens, pos, stack, variables, functions, io, fuel);
            proof {
                assert(eval_tokens(ts, here, st_here, fuel_n) == {
                    let (out, i2) = eval_if(ts, here + 1, st_here, fuel_n);
                    match out {
                        Eval::Done { st: st2 } => if here < i2 && i2 <= ts.len() {
                            eval_tokens(ts, i2, st2, fuel_n)
                        } else {
                            Eval::Fail { st: st2, err: Error::OutOfFuel }
                        },
                        f => f,
                    }
                });
            }
            return res;
        }
        if text::str_is(tok, "println") {
            let res = print_op(stack, variables, io, true);
            proof {
                if st_here.stack.len() > 0 {
                    let shown = render_with_vars(st_here.stack.last(), st_here.vars);
                    assert(st_here.output + shown + seq!['\n'] =~= st_here.output + (shown
                        + seq!['\n']));
                    assert(abs_state(*stack, *variables, *functions, *io) =~= AbsState {
                        stack: st_here.stack.drop_last(),
                        output: st_here.output + shown + seq!['\n'],
                        ..st_here
                    });
                }
            }
            match res {
                Result::Ok(_) => {
                    *pos = *pos + 1;
                    return Result::Ok(());
                },
                Result::Err(e) => {
                    return Result::Err(e);
                },
            }
        }
        if text::str_is(tok, "each") {
            *pos = *pos + 1;
            let res = each(tokens, pos, stack, variables, functions, io, fuel);
            proof {
                assert(eval_tokens(ts, here, st_here, fuel_n) == {
                    let (out, i2) = eval_each_op(ts, here + 1, st_here, fuel_n);
                    match out {
                        Eval::Done { st: st2 } => if here < i2 && i2 <= ts.len() {
                            eval_tokens(ts, i2, st2, fuel_n)
                        } else {
                            Eval::Fail { st: st2, err: Error::OutOfFuel }
                        },
                        f => f,
                    }
                });
            }
            return res;
        }
        if text::str_is(tok, "map") {
            *pos = *pos + 1;
            let res = map(tokens, pos, stack, variables, functions, io, fuel);
            proof {
                assert(eval_tokens(ts, here, st_here, fuel_n) == {
                    let (out, i2) = eval_map_op(ts, here + 1, st_here, fuel_n);
                    match out {
                        Eval::Done { st: st2 } => if here < i2 && i2 <= ts.len() {
                            eval_tokens(ts, i2, st2, fuel_n)
                        } else {
                            Eval::Fail { st: st2, err: Error::OutOfFuel }
                        },
                        f => f,
                    }
                });
            }
            return res;
        }
        if text::str_is(tok, "foldl") {
            *pos = *pos + 1;
            let res = foldl(tokens, pos, stack, variables, functions, io, fuel);
            proof {
                assert(eval_tokens(ts, here, st_here, fuel_n) == {
                    let (out, i2) = eval_foldl_op(ts, here + 1, st_here, fuel_n);
                    match out {
                        Eval::Done { st: st2 } => if here < i2 && i2 <= ts.len() {
                            eval_tokens(ts, i2, st2, fuel_n)
                        } else {
                            Eval::Fail { st: st2, err: Error::OutOfFuel }
                        },
                        f => f,
                    }
                });
            }
            return res;
        }
        if text::str_is(tok, "loop") {
            *pos = *pos + 1;
            let res = loop_op(tokens, pos, stack, variables, functions, io, fuel);
            proof {
                assert(eval_tokens(ts, here, st_here, fuel_n) == {
                    let (out, i2) = eval_loop_op(ts, here + 1, st_here, fuel_n);
                    match out {
                        Eval::Done { st: st2 } => if here < i2 && i2 <= ts.len() {
                            eval_tokens(ts, i2, st2, fuel_n)
                        } else {
                            Eval::Fail { st: st2, err: Error::OutOfFuel }
                        },
                        f => f,
                    }
                });
            }
            return res;
        }
        if text::str_is(tok, "times") {
            *pos = *pos + 1;
            let res = times(tokens, pos, stack, variables, functions, io, fuel);
            proof {
                assert(eval_tokens(ts, here, st_here, fuel_n) == {
                    let (out, i2) = eval_times_op(ts, here + 1, st_here, fuel_n);
                    match out {
                        Eval::Done { st: st2 } => if here < i2 && i2 <= ts.len() {
                            eval_tokens(ts, i2, st2, fuel_n)
                        } else {
                            Eval::Fail { st: st2, err: Error::OutOfFuel }
                        },
                        f => f,
                    }
                });
            }
            return res;
        }
        if text::str_is(tok, ":=") {
            let res = assign(stack, variables);
            proof {
                let (s2, vars2, rr) = assign_step(st_here.stack, st_here.vars);
                assert(abs_state(*stack, *variables, *functions, *io) =~= AbsState {
                    stack: s2,
                    vars: vars2,
                    ..st_here
                });
            }
            match res {
                Result::Ok(_) => {
                    *pos = *pos + 1;
                    return Result::Ok(());
                },
                Result::Err(e) => {
                    return Result::Err(e);
                },
            }
        }
        if text::str_is(tok, "fun") {
            let res = new_function(stack, functions);
            proof {
                let (s2, funs2, rr) = fun_step(st_here.stack, st_here.funs);
                assert(abs_state(*stack, *variables, *functions, *io) =~= AbsState {
                    stack: s2,
                    funs: funs2,
                    ..st_here
                });
            }
            match res {
                Result::Ok(_) => {
                    *pos = *pos + 1;
                    return Result::Ok(());
                },
                Result::Err(e) => {
                    return Result::Err(e);
                },
            }
        }
        if text::str_is(tok, "exec") {
            match stack.pop() {
                Result::Err(e) => {
                    return Result::Err(e);
                },
                Result::Ok(v) => {
                    proof {
                        if st_here.stack.len() > 0 {
                            assert(abs_state(*stack, *variables, *functions, *io)
                                =~= st_here.drop_top());
                        }
                    }
                    match v {
                        Value::Block(bts) => {
                            let res = run_block(&bts, stack, variables, functions, io, fuel);
                            match res {
                                Result::Ok(_) => {
                                    *pos = *pos + 1;
                                    return Result::Ok(());
                                },
                                Result::Err(e) => {
                                    return Result::Err(e);
                                },
                            }
                        },
                        _ => {
                            return Result::Err(Error::TypeMismatch);
                        },
                    }
                },
            }
        }
        let v = convert(tok);
        stack.push(v);
        proof {
            assert(abs_state(*stack, *variables, *functions, *io) =~= st_here.push(
                conv(ts[here]),
            ));
        }
        *pos = *pos + 1;
        Result::Ok(())
}

/// Walks a block's tokens from the start, dispatching each one: variable,
/// function, operator, or literal, in that strict order of precedence.
#[verifier::loop_isolation(false)]
#[verifier::rlimit(50)]
fn run_tokens(
    tokens: &Vec<String>,
    stack: &mut Stack,
    variables: &mut Variables,
    functions: &mut Functions,
    io: &mut Effects,
    fuel: u64,
) -> (r: Result<(), Error>)
    ensures
        ({
            let out = eval_tokens(
                tokens.deep_view(),
                0,
                abs_state(*old(stack), *old(variables), *old(functions), *old(io)),
                fuel as nat,
            );
            eval_matches(
                out,
                r,
                abs_state(*final(stack), *final(variables), *final(functions), *final(io)),
            )
        }),
    decreases fuel, 4int,
{
    let ghost ts = tokens.deep_view();
    let ghost st0 = abs_state(*stack, *variables, *functions, *io);
    let ghost fuel_n = fuel as nat;
    let ghost goal = eval_tokens(ts, 0, st0, fuel_n);
    let mut pos: usize = 0;
    while pos < tokens.len()
        invariant
            0 <= pos <= tokens@.len(),
            eval_tokens(ts, pos as int, abs_state(*stack, *variables, *functions, *io), fuel_n)
                == goal,
        decreases tokens@.len() - pos,
    {
        let ghost here = pos as int;
        let ghost st_here = abs_state(*stack, *variables, *functions, *io);
        let token = tokens[pos].clone();
        let tok = token.as_str();
        proof {
            assert(ts[here] == token@);
        }
        let var_hit = match variables.get(tok) {
            Option::Some(v) => Option::Some(v.clone_value()),
            Option::None => Option::None,
        };
        if let Option::Some(v) = var_hit {
            stack.push(v);
            proof {
                assert(abs_state(*stack, *variables, *functions, *io) =~= st_here.push(
                    st_here.vars[ts[here]],
                ));
            }
            pos = pos + 1;
            continue;
        }
        let fun_hit = match functions.get(tok) {
            Option::Some(f) => Option::Some(f.clone_value()),
            Option::None => Option::None,
        };
        if let Option::Some(fv) = fun_hit {
            let res = fv.exec(stack, variables, functions, io, fuel);
            match res {
                Result::Ok(_) => {
                    pos = pos + 1;
                },
                Result::Err(e) => {
                    return Result::Err(e);
                },
            }
            continue;
        }
        match run_ops_a(tokens, &mut pos, stack, variables, functions, io, fuel) {
            Option::Some(res) => {
                match res {
                    Result::Ok(_) => {
                        continue;
                    },
                    Result::Err(e) => {
                        return Result::Err(e);
                    },
                }
            },
            Option::None => {},
        }
        match run_ops_b(tokens, &mut pos, stack, variables, functions, io, fuel) {
            Option::Some(res) => {
                match res {
                    Result::Ok(_) => {
                        continue;
                    },
                    Result::Err(e) => {
                        return Result::Err(e);
                    },
                }
            },
            Option::None => {},
        }
        match run_ops_b2(tokens, &mut pos, stack, variables, functions, io, fuel) {
            Option::Some(res) => {
                match res {
                    Result::Ok(_) => {
                        continue;
                    },
                    Result::Err(e) => {
                        return Result::Err(e);
                    },
                }
            },
            Option::None => {},
        }
        match run_ops_c(tokens, &mut pos, stack, variables, functions, io, fuel) {
            Result::Ok(_) => {},
            Result::Err(e) => {
                return Result::Err(e);
            },
        }
    }
    Result::Ok(())
}

impl Value {
    /// Executes this value: a block runs against the machine state, anything
    /// else is a type mismatch.  `fuel` bounds block nesting and loop
    /// iterations; exhausting it fails the evaluation with `OutOfFuel`.
    pub fn exec(
        &self,
        stack: &mut Stack,
        variables: &mut Variables,
        functions: &mut Functions,
        io: &mut Effects,
        fuel: u64,
    ) -> (r: Result<(), Error>)
        ensures
            ({
                let out = eval_value(
                    self@,
                    abs_state(*old(stack), *old(variables), *old(functions), *old(io)),
                    fuel as nat,
                );
                eval_matches(
                    out,
                    r,
                    abs_state(*final(stack), *final(variables), *final(functions), *final(io)),
                )
            }),
        decreases fuel, 1int,
    {
        match self {
            Value::Block(b) => {
                if fuel == 0 {
                    return Result::Err(Error::OutOfFuel);
                }
                run_tokens(b, stack, variables, functions, io, fuel - 1)
            },
            _ => Result::Err(Error::TypeMismatch),
        }
    }
}


/// The `print` operator: pops a value and emits its text, with variables
/// resolved, to the output record.
pub fn print(stack: &mut Stack, variables: &mut Variables, io: &mut Effects) -> (r: Result<
    (),
    Error,
>)
    ensures
        old(stack)@.len() == 0 ==> r == Result::<(), Error>::Err(Error::StackUnderflow)
            && final(stack)@ == old(stack)@ && *final(io) == *old(io),
        old(stack)@.len() > 0 ==> r == Result::<(), Error>::Ok(())
            && final(stack)@ == old(stack)@.drop_last()
            && final(io).input == old(io).input
            && final(io).output@ == old(io).output@
                + render_with_vars(old(stack)@.last(), old(variables)@),
        *final(variables) == *old(variables),
{
    let r = print_op(stack, variables, io, false);
    proof {
        if old(stack)@.len() > 0 {
            assert(final(io).output@ =~= old(io).output@ + render_with_vars(
                old(stack)@.last(),
                old(variables)@,
            ));
        }
    }
    r
}

/// The `println` operator: as `print`, with a trailing newline.
pub fn println(stack: &mut Stack, variables: &mut Variables, io: &mut Effects) -> (r: Result<
    (),
    Error,
>)
    ensures
        old(stack)@.len() == 0 ==> r == Result::<(), Error>::Err(Error::StackUnderflow)
            && final(stack)@ == old(stack)@ && *final(io) == *old(io),
        old(stack)@.len() > 0 ==> r == Result::<(), Error>::Ok(())
            && final(stack)@ == old(stack)@.drop_last()
            && final(io).input == old(io).input
            && final(io).output@ == old(io).output@
                + render_with_vars(old(stack)@.last(), old(variables)@) + seq!['\n'],
        *final(variables) == *old(variables),
{
    print_op(stack, variables, io, true)
}

/// The `read` operator: pushes the next pending input line, trimmed, or an
/// empty string when no input is left.
pub fn read(stack: &mut Stack, io: &mut Effects) -> (r: Result<(), Error>)
    ensures
        r == Result::<(), Error>::Ok(()),
        old(io).input@.len() > 0 ==> final(stack)@ == old(stack)@.push(
            AbsValue::Str(text::trim_s(old(io).input.deep_view()[0])),
        ) && final(io).input.deep_view() == old(io).input.deep_view().drop_first()
            && final(io).output == old(io).output,
        old(io).input@.len() == 0 ==> final(stack)@ == old(stack)@.push(
            AbsValue::Str(Seq::empty()),
        ) && *final(io) == *old(io),
{
    read_op(stack, io)
}

} // verus!
