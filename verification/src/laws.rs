//! Laws of the language, stated against the mathematical semantics and
//! proved once and for all: what literals, arithmetic, the stack shuffles,
//! and the list combinators guarantee for every program.
use vstd::prelude::*;
use crate::eval::{
    eval_each, eval_foldl, eval_map, eval_tokens, eval_value, AbsState, Eval,
};
use crate::types::{
    abs_add, abs_div, abs_eq, abs_gt, abs_lt, abs_mul, abs_sub, conv, div_trunc, AbsValue, Error,
};

verus! {

/// A token that denotes an integer literal is none of the operator tokens.
proof fn lemma_int_token_not_operator(t: Seq<char>, n: i64)
    requires
        conv(t) == AbsValue::Int(n),
    ensures
        t != "+"@ && t != "-"@ && t != "*"@ && t != "/"@ && t != "div"@ && t != "<"@ && t != ">"@
            && t != "=="@ && t != "dup"@ && t != "swap"@ && t != "pop"@ && t != "words"@
            && t != "print"@ && t != "read"@ && t != "parseInteger"@ && t != "parseFloat"@
            && t != "&&"@ && t != "||"@ && t != "not"@ && t != "["@ && t != "{"@ && t != "\""@
            && t != "head"@ && t != "tail"@ && t != "empty"@ && t != "length"@ && t != "cons"@
            && t != "append"@ && t != "if"@ && t != "println"@ && t != "each"@ && t != "map"@
            && t != "foldl"@ && t != "loop"@ && t != "times"@ && t != ":="@ && t != "fun"@
            && t != "exec"@,
{
    reveal_strlit("+");
    reveal_strlit("-");
    reveal_strlit("*");
    reveal_strlit("/");
    reveal_strlit("div");
    reveal_strlit("<");
    reveal_strlit(">");
    reveal_strlit("==");
    reveal_strlit("dup");
    reveal_strlit("swap");
    reveal_strlit("pop");
    reveal_strlit("words");
    reveal_strlit("print");
    reveal_strlit("read");
    reveal_strlit("parseInteger");
    reveal_strlit("parseFloat");
    reveal_strlit("&&");
    reveal_strlit("||");
    reveal_strlit("not");
    reveal_strlit("[");
    reveal_strlit("{");
    reveal_strlit("\"");
    reveal_strlit("head");
    reveal_strlit("tail");
    reveal_strlit("empty");
    reveal_strlit("length");
    reveal_strlit("cons");
    reveal_strlit("append");
    reveal_strlit("if");
    reveal_strlit("println");
    reveal_strlit("each");
    reveal_strlit("map");
    reveal_strlit("foldl");
    reveal_strlit("loop");
    reveal_strlit("times");
    reveal_strlit(":=");
    reveal_strlit("fun");
    reveal_strlit("exec");
}

/// Evaluating a token that denotes an integer literal — and that names no
/// variable or function — pushes exactly that literal and moves on.
proof fn lemma_push_int_literal(ts: Seq<Seq<char>>, i: int, n: i64, st: AbsState, fuel: nat)
    requires
        0 <= i < ts.len(),
        conv(ts[i]) == AbsValue::Int(n),
        !st.vars.contains_key(ts[i]),
        !st.funs.contains_key(ts[i]),
    ensures
        eval_tokens(ts, i, st, fuel) == eval_tokens(ts, i + 1, st.push(AbsValue::Int(n)), fuel),
{
    lemma_int_token_not_operator(ts[i], n);
}


/// Unfolding helpers: each pins one step of the dispatch, so the program
/// lemmas below can chain steps without unrolling the evaluator deeply.
proof fn lemma_eval_done(ts: Seq<Seq<char>>, i: int, st: AbsState, fuel: nat)
    requires
        i >= ts.len(),
    ensures
        eval_tokens(ts, i, st, fuel) == (Eval::Done { st }),
{
}

proof fn lemma_step_ok(
    ts: Seq<Seq<char>>,
    i: int,
    st: AbsState,
    fuel: nat,
    stepped: (Seq<AbsValue>, Result<(), Error>),
)
    requires
        0 <= i < ts.len(),
        stepped.1 is Ok,
    ensures
        crate::eval::step_continue(ts, i, st, fuel, stepped) == eval_tokens(
            ts,
            i + 1,
            st.with_stack(stepped.0),
            fuel,
        ),
{
}

proof fn lemma_dispatch_arith(ts: Seq<Seq<char>>, i: int, st: AbsState, fuel: nat)
    requires
        0 <= i < ts.len(),
        ts[i] == "+"@ || ts[i] == "-"@ || ts[i] == "*"@ || ts[i] == "/"@,
        !st.vars.contains_key(ts[i]),
        !st.funs.contains_key(ts[i]),
    ensures
        ts[i] == "+"@ ==> eval_tokens(ts, i, st, fuel) == crate::eval::step_continue(
            ts,
            i,
            st,
            fuel,
            crate::arithmetic::add_step(st.stack),
        ),
        ts[i] == "-"@ ==> eval_tokens(ts, i, st, fuel) == crate::eval::step_continue(
            ts,
            i,
            st,
            fuel,
            crate::arithmetic::sub_step(st.stack),
        ),
        ts[i] == "*"@ ==> eval_tokens(ts, i, st, fuel) == crate::eval::step_continue(
            ts,
            i,
            st,
            fuel,
            crate::arithmetic::mul_step(st.stack),
        ),
        ts[i] == "/"@ ==> eval_tokens(ts, i, st, fuel) == crate::eval::step_continue(
            ts,
            i,
            st,
            fuel,
            crate::arithmetic::div_step(st.stack),
        ),
{
    reveal_strlit("+");
    reveal_strlit("-");
    reveal_strlit("*");
    reveal_strlit("/");
}

/// Literal identity: for any integer literal, evaluating its token alone
/// leaves exactly that integer on top of the stack and changes nothing
/// else.
pub proof fn literal_identity(t: Seq<char>, n: i64, st: AbsState, fuel: nat)
    requires
        conv(t) == AbsValue::Int(n),
        !st.vars.contains_key(t),
        !st.funs.contains_key(t),
    ensures
        eval_tokens(seq![t], 0, st, fuel) == (Eval::Done { st: st.push(AbsValue::Int(n)) }),
{
    let ts = seq![t];
    lemma_push_int_literal(ts, 0, n, st, fuel);
}

/// Arithmetic closure on integers: for integer tokens `a` and `b`, the
/// program `a b +` leaves exactly `a + b` (when it is representable), and
/// likewise for `-`, `*` and `/` through the operator's value function.
pub proof fn int_add_program(
    ta: Seq<char>,
    tb: Seq<char>,
    a: i64,
    b: i64,
    st: AbsState,
    fuel: nat,
)
    requires
        conv(ta) == AbsValue::Int(a),
        conv(tb) == AbsValue::Int(b),
        i64::MIN <= a + b <= i64::MAX,
        !st.vars.contains_key(ta) && !st.funs.contains_key(ta),
        !st.vars.contains_key(tb) && !st.funs.contains_key(tb),
        !st.vars.contains_key("+"@) && !st.funs.contains_key("+"@),
    ensures
        eval_tokens(seq![ta, tb, "+"@], 0, st, fuel) == (Eval::Done {
            st: st.push(AbsValue::Int((a + b) as i64)),
        }),
{
    let ts = seq![ta, tb, "+"@];
    lemma_push_int_literal(ts, 0, a, st, fuel);
    lemma_push_int_literal(ts, 1, b, st.push(AbsValue::Int(a)), fuel);
    let st2 = st.push(AbsValue::Int(a)).push(AbsValue::Int(b));
    assert(st2.stack.take(st2.stack.len() - 2) =~= st.stack);
    lemma_dispatch_arith(ts, 2, st2, fuel);
    lemma_step_ok(ts, 2, st2, fuel, crate::arithmetic::add_step(st2.stack));
    let st3 = st2.with_stack(st.stack.push(AbsValue::Int((a + b) as i64)));
    lemma_eval_done(ts, 3, st3, fuel);
    assert(st3 =~= st.push(AbsValue::Int((a + b) as i64)));
}

/// Arithmetic closure, continued: the program `a b -` leaves exactly
/// the difference, where it is representable.
pub proof fn int_sub_program(
    ta: Seq<char>,
    tb: Seq<char>,
    a: i64,
    b: i64,
    st: AbsState,
    fuel: nat,
)
    requires
        conv(ta) == AbsValue::Int(a),
        conv(tb) == AbsValue::Int(b),
        i64::MIN <= a - b <= i64::MAX,
        !st.vars.contains_key(ta) && !st.funs.contains_key(ta),
        !st.vars.contains_key(tb) && !st.funs.contains_key(tb),
        !st.vars.contains_key("-"@) && !st.funs.contains_key("-"@),
    ensures
        eval_tokens(seq![ta, tb, "-"@], 0, st, fuel) == (Eval::Done {
            st: st.push(AbsValue::Int((a - b) as i64)),
        }),
{
    let ts = seq![ta, tb, "-"@];
    lemma_push_int_literal(ts, 0, a, st, fuel);
    lemma_push_int_literal(ts, 1, b, st.push(AbsValue::Int(a)), fuel);
    let st2 = st.push(AbsValue::Int(a)).push(AbsValue::Int(b));
    assert(st2.stack.take(st2.stack.len() - 2) =~= st.stack);
    lemma_dispatch_arith(ts, 2, st2, fuel);
    lemma_step_ok(ts, 2, st2, fuel, crate::arithmetic::sub_step(st2.stack));
    let st3 = st2.with_stack(st.stack.push(AbsValue::Int((a - b) as i64)));
    lemma_eval_done(ts, 3, st3, fuel);
    assert(st3 =~= st.push(AbsValue::Int((a - b) as i64)));
}

/// Arithmetic closure, continued: the program `a b *` leaves exactly
/// the product, where it is representable.
pub proof fn int_mul_program(
    ta: Seq<char>,
    tb: Seq<char>,
    a: i64,
    b: i64,
    st: AbsState,
    fuel: nat,
)
    requires
        conv(ta) == AbsValue::Int(a),
        conv(tb) == AbsValue::Int(b),
        i64::MIN <= a * b <= i64::MAX,
        !st.vars.contains_key(ta) && !st.funs.contains_key(ta),
        !st.vars.contains_key(tb) && !st.funs.contains_key(tb),
        !st.vars.contains_key("*"@) && !st.funs.contains_key("*"@),
    ensures
        eval_tokens(seq![ta, tb, "*"@], 0, st, fuel) == (Eval::Done {
            st: st.push(AbsValue::Int((a * b) as i64)),
        }),
{
    let ts = seq![ta, tb, "*"@];
    lemma_push_int_literal(ts, 0, a, st, fuel);
    lemma_push_int_literal(ts, 1, b, st.push(AbsValue::Int(a)), fuel);
    let st2 = st.push(AbsValue::Int(a)).push(AbsValue::Int(b));
    assert(st2.stack.take(st2.stack.len() - 2) =~= st.stack);
    lemma_dispatch_arith(ts, 2, st2, fuel);
    lemma_step_ok(ts, 2, st2, fuel, crate::arithmetic::mul_step(st2.stack));
    let st3 = st2.with_stack(st.stack.push(AbsValue::Int((a * b) as i64)));
    lemma_eval_done(ts, 3, st3, fuel);
    assert(st3 =~= st.push(AbsValue::Int((a * b) as i64)));
}

/// Arithmetic closure, continued: the program `a b /` leaves exactly
/// the truncated quotient, for a non-zero divisor away\n/// from the one overflowing pair.
pub proof fn int_div_program(
    ta: Seq<char>,
    tb: Seq<char>,
    a: i64,
    b: i64,
    st: AbsState,
    fuel: nat,
)
    requires
        conv(ta) == AbsValue::Int(a),
        conv(tb) == AbsValue::Int(b),
        b != 0 && !(a == i64::MIN && b == -1),
        !st.vars.contains_key(ta) && !st.funs.contains_key(ta),
        !st.vars.contains_key(tb) && !st.funs.contains_key(tb),
        !st.vars.contains_key("/"@) && !st.funs.contains_key("/"@),
    ensures
        eval_tokens(seq![ta, tb, "/"@], 0, st, fuel) == (Eval::Done {
            st: st.push(AbsValue::Int(div_trunc(a, b) as i64)),
        }),
{
    let ts = seq![ta, tb, "/"@];
    lemma_push_int_literal(ts, 0, a, st, fuel);
    lemma_push_int_literal(ts, 1, b, st.push(AbsValue::Int(a)), fuel);
    let st2 = st.push(AbsValue::Int(a)).push(AbsValue::Int(b));
    assert(st2.stack.take(st2.stack.len() - 2) =~= st.stack);
    lemma_dispatch_arith(ts, 2, st2, fuel);
    lemma_step_ok(ts, 2, st2, fuel, crate::arithmetic::div_step(st2.stack));
    let st3 = st2.with_stack(st.stack.push(AbsValue::Int(div_trunc(a, b) as i64)));
    lemma_eval_done(ts, 3, st3, fuel);
    assert(st3 =~= st.push(AbsValue::Int(div_trunc(a, b) as i64)));
}

/// The value functions behind `-`, `*`, `/` and `div` on integers: exact
/// subtraction and multiplication where representable, and the truncated
/// quotient for a non-zero divisor.
pub proof fn int_arithmetic_ops(a: i64, b: i64)
    ensures
        i64::MIN <= a - b <= i64::MAX ==> abs_sub(AbsValue::Int(a), AbsValue::Int(b))
            == Result::<AbsValue, Error>::Ok(AbsValue::Int((a - b) as i64)),
        i64::MIN <= a * b <= i64::MAX ==> abs_mul(AbsValue::Int(a), AbsValue::Int(b))
            == Result::<AbsValue, Error>::Ok(AbsValue::Int((a * b) as i64)),
        b != 0 && !(a == i64::MIN && b == -1) ==> abs_div(AbsValue::Int(a), AbsValue::Int(b))
            == Result::<AbsValue, Error>::Ok(AbsValue::Int(div_trunc(a, b) as i64)),
        b == 0 ==> abs_div(AbsValue::Int(a), AbsValue::Int(b)) == Result::<AbsValue, Error>::Err(
            Error::ArithmeticDomain,
        ),
        a >= 0 && b > 0 ==> div_trunc(a, b) == a / b,
{
}

/// Addition is not commutative on strings: `x y +` concatenates in stack
/// order, the lower operand first.
pub proof fn string_concat_order(rest: Seq<AbsValue>, x: Seq<char>, y: Seq<char>, st: AbsState, fuel: nat)
    requires
        st.stack == rest.push(AbsValue::Str(x)).push(AbsValue::Str(y)),
        !st.vars.contains_key("+"@),
        !st.funs.contains_key("+"@),
    ensures
        eval_tokens(seq!["+"@], 0, st, fuel) == (Eval::Done {
            st: st.with_stack(rest.push(AbsValue::Str(x + y))),
        }),
        abs_add(AbsValue::Str(x), AbsValue::Str(y)) == Result::<AbsValue, Error>::Ok(
            AbsValue::Str(x + y),
        ),
{
    reveal_with_fuel(eval_tokens, 3);
    assert(st.stack.take(st.stack.len() - 2) =~= rest);
    assert(st.stack.last() == AbsValue::Str(y));
    assert(st.stack[st.stack.len() - 2] == AbsValue::Str(x));
}

/// Map's length law: however the block rearranges the rest of the stack, a
/// `map` that completes pushes one list whose length is the element count
/// it started from (here: the elements still to visit plus the results
/// already collected).
pub proof fn map_length_law(
    items: Seq<AbsValue>,
    b: Seq<Seq<char>>,
    acc: Seq<AbsValue>,
    st: AbsState,
    fuel: nat,
)
    ensures
        ({
            match eval_map(items, b, acc, st, fuel) {
                Eval::Done { st: st2 } => st2.stack.len() >= 1 && (match st2.stack.last() {
                    AbsValue::List(res) => res.len() == acc.len() + items.len(),
                    _ => false,
                }),
                Eval::Fail { .. } => true,
            }
        }),
    decreases fuel,
{
    if items.len() == 0 {
    } else if fuel == 0 {
    } else {
        match crate::eval::eval_block(b, st.push(items[0]), fuel) {
            Eval::Done { st: st2 } => {
                if st2.stack.len() > 0 {
                    map_length_law(
                        items.drop_first(),
                        b,
                        acc.push(st2.stack.last()),
                        st2.drop_top(),
                        (fuel - 1) as nat,
                    );
                }
            },
            Eval::Fail { .. } => {},
        }
    }
}

/// Folding an empty body over a list pushes the initial accumulator when
/// the list is empty, and otherwise the list's last element: with nothing
/// to combine them, each element simply replaces the accumulator.
pub proof fn foldl_identity(items: Seq<AbsValue>, a: AbsValue, st: AbsState, fuel: nat)
    requires
        fuel > items.len(),
    ensures
        ({
            let out = eval_foldl(items, Seq::empty(), a, st, fuel);
            match out {
                Eval::Done { st: st2 } => st2.stack.len() >= 1 && st2.stack.last() == (
                if items.len() == 0 {
                    a
                } else {
                    items.last()
                }),
                Eval::Fail { .. } => false,
            }
        }),
        items.len() == 0 ==> eval_foldl(items, Seq::empty(), a, st, fuel) == (Eval::Done {
            st: st.push(a),
        }),
    decreases fuel,
{
    if items.len() == 0 {
    } else {
        let st1 = st.push(a).push(items[0]);
        assert(eval_tokens(Seq::empty(), 0, st1, (fuel - 1) as nat) == (Eval::Done { st: st1 }));
        assert(crate::eval::eval_block(Seq::empty(), st1, fuel) == (Eval::Done { st: st1 }));
        assert(st1.stack.last() == items[0]);
        assert(st1.drop_top() =~= st.push(a));
        foldl_identity(items.drop_first(), items[0], st1.drop_top(), (fuel - 1) as nat);
        assert(eval_foldl(items, Seq::empty(), a, st, fuel) == eval_foldl(
            items.drop_first(),
            Seq::empty(),
            items[0],
            st1.drop_top(),
            (fuel - 1) as nat,
        ));
        if items.len() > 1 {
            assert(items.drop_first().last() == items.last());
        } else {
            assert(items[0] == items.last());
        }
    }
}

/// Each is neutral on the empty list: the machine state is exactly what it
/// was, whatever the body.
pub proof fn each_neutral(b: Seq<Seq<char>>, st: AbsState, fuel: nat)
    ensures
        eval_each(Seq::empty(), b, st, fuel) == (Eval::Done { st }),
{
}

/// Variable shadowing: a token bound as a variable pushes a copy of its
/// value, whatever else — operator or not — the token would mean.
pub proof fn variable_shadowing(ts: Seq<Seq<char>>, i: int, st: AbsState, fuel: nat)
    requires
        0 <= i < ts.len(),
        st.vars.contains_key(ts[i]),
    ensures
        eval_tokens(ts, i, st, fuel) == eval_tokens(ts, i + 1, st.push(st.vars[ts[i]]), fuel),
{
}

/// Block re-entrancy: executing the same block twice from equal machine
/// states, with equal budgets, ends in equal machine states — the
/// semantics is a function of block, state and budget alone.
pub proof fn block_reentrancy(v: AbsValue, st1: AbsState, st2: AbsState, fuel: nat)
    requires
        st1 == st2,
    ensures
        eval_value(v, st1, fuel) == eval_value(v, st2, fuel),
{
}

/// Comparison totality on integers: of `a b <`, `a b ==` and `a b >`,
/// exactly one yields true.
pub proof fn int_comparison_totality(a: i64, b: i64)
    ensures
        abs_lt(AbsValue::Int(a), AbsValue::Int(b)) == Result::<AbsValue, Error>::Ok(
            AbsValue::Boolean(a < b),
        ),
        abs_gt(AbsValue::Int(a), AbsValue::Int(b)) == Result::<AbsValue, Error>::Ok(
            AbsValue::Boolean(a > b),
        ),
        abs_eq(AbsValue::Int(a), AbsValue::Int(b)) == (a == b),
        (if a < b {
            1int
        } else {
            0int
        }) + (if a == b {
            1int
        } else {
            0int
        }) + (if a > b {
            1int
        } else {
            0int
        }) == 1,
{
}

} // verus!
