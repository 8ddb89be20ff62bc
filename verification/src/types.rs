//! The runtime value model: a tagged union of the values the language works
//! on, together with its mathematical abstraction and the typed primitive
//! operations (arithmetic, comparison, logic, sequence primitives).
use vstd::prelude::*;
use vstd::wrapping::i64_specs;
use crate::text;

verus! {

/// The failure cases an evaluation can end in.  Every operator either
/// completes or fails the whole evaluation with one of these; state reached
/// before the failure is kept (there is no rollback).
#[derive(Clone, Copy, PartialEq, Eq, Structural, Debug)]
pub enum Error {
    /// A pop was attempted on an empty stack.
    StackUnderflow,
    /// An operator received an operand of a disallowed variant.
    TypeMismatch,
    /// Division by zero.
    ArithmeticDomain,
    /// `head` or `tail` on an empty list or string.
    EmptySequence,
    /// `parseInteger` or `parseFloat` on a string it cannot parse.
    ParseFailure,
    /// A control-flow operator reached the end of the tokens during lookahead.
    MalformedControlFlow,
    /// `:=` or `fun` applied to a name that is not a symbol.
    InvalidBinding,
    /// The step budget given to the evaluator ran out.
    OutOfFuel,
}

/// A runtime value.  A `Block` stores raw tokens (unevaluated source); a
/// `List` stores already-parsed values; a `Symbol` is a token that parsed as
/// no literal and names a variable, a function or an assignment target.
pub enum Value {
    Int(i64),
    Boolean(bool),
    Str(String),
    List(Vec<Value>),
    Block(Vec<String>),
    Symbol(String),
}

/// The mathematical shape of a runtime value.
pub enum AbsValue {
    Int(i64),
    Boolean(bool),
    Str(Seq<char>),
    List(Seq<AbsValue>),
    Block(Seq<Seq<char>>),
    Symbol(Seq<char>),
}

/// The abstraction of a sequence of values, element by element.
pub open spec fn abs_seq(s: Seq<Value>) -> Seq<AbsValue>
    decreases s,
{
    if s.len() == 0 {
        Seq::empty()
    } else {
        abs_seq(s.drop_last()).push(s.last()@)
    }
}

impl View for Value {
    type V = AbsValue;

    open spec fn view(&self) -> AbsValue
        decreases self,
    {
        match self {
            Value::Int(n) => AbsValue::Int(*n),
            Value::Boolean(b) => AbsValue::Boolean(*b),
            Value::Str(s) => AbsValue::Str(s@),
            Value::List(xs) => AbsValue::List(abs_seq(xs@)),
            Value::Block(ts) => AbsValue::Block(ts.deep_view()),
            Value::Symbol(s) => AbsValue::Symbol(s@),
        }
    }
}

pub broadcast proof fn abs_seq_len(s: Seq<Value>)
    ensures
        #[trigger] abs_seq(s).len() == s.len(),
    decreases s,
{
    if s.len() == 0 {
        assert(abs_seq(s) == Seq::<AbsValue>::empty());
    } else {
        abs_seq_len(s.drop_last());
        assert(abs_seq(s) == abs_seq(s.drop_last()).push(s.last()@));
    }
}

pub broadcast proof fn abs_seq_index(s: Seq<Value>, i: int)
    requires
        0 <= i < s.len(),
    ensures
        #[trigger] abs_seq(s)[i] == s[i]@,
    decreases s,
{
    abs_seq_len(s);
    assert(abs_seq(s) == abs_seq(s.drop_last()).push(s.last()@));
    if i < s.len() - 1 {
        abs_seq_index(s.drop_last(), i);
        assert(s.drop_last()[i] == s[i]);
    } else {
        assert(s.last() == s[i]);
    }
}

pub broadcast proof fn abs_seq_push(s: Seq<Value>, v: Value)
    ensures
        #[trigger] abs_seq(s.push(v)) == abs_seq(s).push(v@),
{
    assert(s.push(v).drop_last() =~= s);
}

pub broadcast group group_abs_seq {
    abs_seq_len,
    abs_seq_index,
    abs_seq_push,
}

impl Value {
    /// A deep copy.  Values read out of an environment are copied, never
    /// shared, so a later mutation of the copy cannot write back.
    #[verifier::loop_isolation(false)]
    pub fn clone_value(&self) -> (r: Value)
        ensures
            r@ == self@,
        decreases self,
    {
        broadcast use group_abs_seq;
        match self {
            Value::Int(n) => Value::Int(*n),
            Value::Boolean(b) => Value::Boolean(*b),
            Value::Str(s) => Value::Str(s.clone()),
            Value::List(xs) => {
                let mut out: Vec<Value> = Vec::new();
                let mut i: usize = 0;
                while i < xs.len()
                    invariant
                        i <= xs.len(),
                        out@.len() == i,
                        forall|j: int| 0 <= j < i ==> out@[j]@ == xs@[j]@,
                    decreases xs.len() - i,
                {
                    proof {
                        assert(decreases_to!(*self => self->List_0));
                        assert(self->List_0 == *xs);
                        assert(decreases_to!(*xs => xs@));
                        assert(decreases_to!(xs@ => xs@[i as int]));
                        assert(decreases_to!(*self => xs@[i as int]));
                    }
                    out.push(xs[i].clone_value());
                    i = i + 1;
                }
                proof {
                    assert(abs_seq(out@) =~= abs_seq(xs@));
                }
                Value::List(out)
            },
            Value::Block(ts) => {
                let mut out: Vec<String> = Vec::new();
                let mut i: usize = 0;
                while i < ts.len()
                    invariant
                        i <= ts.len(),
                        out@.len() == i,
                        forall|j: int| 0 <= j < i ==> out@[j] == ts@[j],
                    decreases ts.len() - i,
                {
                    out.push(ts[i].clone());
                    i = i + 1;
                }
                proof {
                    assert(out.deep_view() =~= ts.deep_view());
                }
                Value::Block(out)
            },
            Value::Symbol(s) => Value::Symbol(s.clone()),
        }
    }
}

// ---------------------------------------------------------------------------
// Literal conversion: integer, then `true`/`false`, otherwise a symbol.
// ---------------------------------------------------------------------------

/// What a bare token denotes.
pub open spec fn conv(t: Seq<char>) -> AbsValue {
    match text::parse_int(t) {
        Option::Some(v) => AbsValue::Int(v),
        Option::None => if t == "true"@ {
            AbsValue::Boolean(true)
        } else if t == "false"@ {
            AbsValue::Boolean(false)
        } else {
            AbsValue::Symbol(t)
        },
    }
}

/// Converts a bare token to the value it denotes.
pub fn convert(value: &str) -> (r: Value)
    ensures
        r@ == conv(value@),
{
    match text::parse_int_str(value) {
        Option::Some(v) => Value::Int(v),
        Option::None => {
            if text::str_is(value, "true") {
                Value::Boolean(true)
            } else if text::str_is(value, "false") {
                Value::Boolean(false)
            } else {
                Value::Symbol(String::from_str(value))
            }
        },
    }
}

// ---------------------------------------------------------------------------
// Arithmetic.  All binary arithmetic requires operands of the same variant;
// integer arithmetic wraps around the 64-bit range.
// ---------------------------------------------------------------------------

/// The abstraction of an operation result: the value's shape on success, the
/// error unchanged on failure.
pub open spec fn res_abs(r: Result<Value, Error>) -> Result<AbsValue, Error> {
    match r {
        Result::Ok(v) => Result::Ok(v@),
        Result::Err(e) => Result::Err(e),
    }
}

pub open spec fn abs_add(a: AbsValue, b: AbsValue) -> Result<AbsValue, Error> {
    match (a, b) {
        (AbsValue::Int(x), AbsValue::Int(y)) => Result::Ok(
            AbsValue::Int(i64_specs::wrapping_add(x, y)),
        ),
        (AbsValue::Str(x), AbsValue::Str(y)) => Result::Ok(AbsValue::Str(x + y)),
        (AbsValue::List(x), AbsValue::List(y)) => Result::Ok(AbsValue::List(x + y)),
        _ => Result::Err(Error::TypeMismatch),
    }
}

pub open spec fn abs_sub(a: AbsValue, b: AbsValue) -> Result<AbsValue, Error> {
    match (a, b) {
        (AbsValue::Int(x), AbsValue::Int(y)) => Result::Ok(
            AbsValue::Int(i64_specs::wrapping_sub(x, y)),
        ),
        _ => Result::Err(Error::TypeMismatch),
    }
}

pub open spec fn abs_mul(a: AbsValue, b: AbsValue) -> Result<AbsValue, Error> {
    match (a, b) {
        (AbsValue::Int(x), AbsValue::Int(y)) => Result::Ok(
            AbsValue::Int(i64_specs::wrapping_mul(x, y)),
        ),
        _ => Result::Err(Error::TypeMismatch),
    }
}

pub open spec fn mag_of(x: i64) -> int {
    if x >= 0 {
        x as int
    } else {
        -(x as int)
    }
}

/// Truncating (round-toward-zero) signed division.
pub open spec fn div_trunc(a: i64, b: i64) -> int
    recommends
        b != 0,
{
    if (a < 0) == (b < 0) {
        mag_of(a) / mag_of(b)
    } else {
        -(mag_of(a) / mag_of(b))
    }
}

pub open spec fn abs_div(a: AbsValue, b: AbsValue) -> Result<AbsValue, Error> {
    match (a, b) {
        (AbsValue::Int(x), AbsValue::Int(y)) => {
            if y == 0 {
                Result::Err(Error::ArithmeticDomain)
            } else if x == i64::MIN && y == -1 {
                Result::Ok(AbsValue::Int(i64::MIN))
            } else {
                Result::Ok(AbsValue::Int(div_trunc(x, y) as i64))
            }
        },
        _ => Result::Err(Error::TypeMismatch),
    }
}

pub broadcast proof fn abs_seq_concat(s1: Seq<Value>, s2: Seq<Value>)
    ensures
        #[trigger] abs_seq(s1 + s2) == abs_seq(s1) + abs_seq(s2),
    decreases s2.len(),
{
    if s2.len() == 0 {
        assert(s1 + s2 =~= s1);
        assert(abs_seq(s1) + abs_seq(s2) =~= abs_seq(s1));
    } else {
        abs_seq_concat(s1, s2.drop_last());
        assert((s1 + s2).drop_last() =~= s1 + s2.drop_last());
        assert((s1 + s2).last() == s2.last());
        abs_seq_len(s1 + s2);
        assert(abs_seq(s1) + abs_seq(s2) =~= (abs_seq(s1) + abs_seq(s2.drop_last())).push(
            s2.last()@,
        ));
    }
}

/// The `+` operation: addition on integers, concatenation on strings and
/// lists, an error on any other pairing.
pub fn value_add(a: Value, b: Value) -> (r: Result<Value, Error>)
    ensures
        res_abs(r) == abs_add(a@, b@),
{
    match (a, b) {
        (Value::Int(x), Value::Int(y)) => Result::Ok(Value::Int(x.wrapping_add(y))),
        (Value::Str(x), Value::Str(y)) => Result::Ok(Value::Str(x.concat(y.as_str()))),
        (Value::List(mut x), Value::List(y)) => {
            proof {
                abs_seq_concat(x@, y@);
            }
            let mut y = y;
            x.append(&mut y);
            Result::Ok(Value::List(x))
        },
        _ => Result::Err(Error::TypeMismatch),
    }
}

/// The `-` operation: subtraction on integers.
pub fn value_sub(a: Value, b: Value) -> (r: Result<Value, Error>)
    ensures
        res_abs(r) == abs_sub(a@, b@),
{
    match (a, b) {
        (Value::Int(x), Value::Int(y)) => Result::Ok(Value::Int(x.wrapping_sub(y))),
        _ => Result::Err(Error::TypeMismatch),
    }
}

/// The `*` operation: multiplication on integers.
pub fn value_mul(a: Value, b: Value) -> (r: Result<Value, Error>)
    ensures
        res_abs(r) == abs_mul(a@, b@),
{
    match (a, b) {
        (Value::Int(x), Value::Int(y)) => Result::Ok(Value::Int(x.wrapping_mul(y))),
        _ => Result::Err(Error::TypeMismatch),
    }
}

fn mag_u64(x: i64) -> (m: u64)
    ensures
        m as int == mag_of(x),
{
    if x >= 0 {
        x as u64
    } else {
        let wide: i128 = -(x as i128);
        wide as u64
    }
}

/// The `/` and `div` operation: truncating division on integers, an error on
/// a zero divisor.
pub fn value_div(a: Value, b: Value) -> (r: Result<Value, Error>)
    ensures
        res_abs(r) == abs_div(a@, b@),
{
    match (a, b) {
        (Value::Int(x), Value::Int(y)) => {
            if y == 0 {
                Result::Err(Error::ArithmeticDomain)
            } else if x == i64::MIN && y == -1 {
                Result::Ok(Value::Int(i64::MIN))
            } else {
                let ma = mag_u64(x);
                let mb = mag_u64(y);
                let q = ma / mb;
                proof {
                    assert(ma / mb <= ma) by (nonlinear_arith)
                        requires
                            mb >= 1,
                    ;
                    if (x < 0) == (y < 0) && ma == 9223372036854775808 {
                        // x is the minimum value, so y is negative and not -1
                        assert(mb >= 2);
                        assert(ma / mb <= ma / 2) by (nonlinear_arith)
                            requires
                                mb >= 2,
                        ;
                    }
                }
                if (x < 0) == (y < 0) {
                    Result::Ok(Value::Int(q as i64))
                } else {
                    if q == 9223372036854775808 {
                        Result::Ok(Value::Int(i64::MIN))
                    } else {
                        Result::Ok(Value::Int(-(q as i64)))
                    }
                }
            }
        },
        _ => Result::Err(Error::TypeMismatch),
    }
}

// ---------------------------------------------------------------------------
// Equality and ordering.  Both are defined only within a variant; `==` on a
// mixed pair is false, ordering a mixed pair (or blocks or symbols) yields
// no result.
// ---------------------------------------------------------------------------

/// A three-way comparison result, or the absence of one.
#[derive(Clone, Copy, PartialEq, Eq, Structural, Debug)]
pub enum CmpRes {
    Lt,
    Eq,
    Gt,
    Incomparable,
}

/// Language equality: element-wise within a variant, false across variants
/// and on blocks and symbols.
pub open spec fn abs_eq(a: AbsValue, b: AbsValue) -> bool
    decreases a,
{
    match (a, b) {
        (AbsValue::Int(x), AbsValue::Int(y)) => x == y,
        (AbsValue::Boolean(x), AbsValue::Boolean(y)) => x == y,
        (AbsValue::Str(x), AbsValue::Str(y)) => x == y,
        (AbsValue::List(x), AbsValue::List(y)) => abs_eq_seq(x, y),
        _ => false,
    }
}

pub open spec fn abs_eq_seq(x: Seq<AbsValue>, y: Seq<AbsValue>) -> bool
    decreases x,
{
    if x.len() != y.len() {
        false
    } else if x.len() == 0 {
        true
    } else {
        abs_eq(x.last(), y.last()) && abs_eq_seq(x.drop_last(), y.drop_last())
    }
}

proof fn lemma_abs_eq_seq_pointwise(x: Seq<AbsValue>, y: Seq<AbsValue>)
    ensures
        abs_eq_seq(x, y) <==> (x.len() == y.len() && forall|i: int|
            0 <= i < x.len() ==> abs_eq(#[trigger] x[i], y[i])),
    decreases x,
{
    if x.len() == y.len() && x.len() > 0 {
        lemma_abs_eq_seq_pointwise(x.drop_last(), y.drop_last());
        if abs_eq_seq(x, y) {
            assert forall|i: int| 0 <= i < x.len() implies abs_eq(#[trigger] x[i], y[i]) by {
                if i < x.len() - 1 {
                    assert(abs_eq(x.drop_last()[i], y.drop_last()[i]));
                } else {
                    assert(abs_eq(x.last(), y.last()));
                }
            }
        }
        if x.len() == y.len() && forall|i: int| 0 <= i < x.len() ==> abs_eq(#[trigger] x[i], y[i]) {
            assert(forall|i: int|
                0 <= i < x.drop_last().len() ==> abs_eq(#[trigger] x.drop_last()[i],
                    y.drop_last()[i]));
            assert(abs_eq(x.last(), y.last()));
        }
    }
}

/// Language equality, executed.
#[verifier::loop_isolation(false)]
pub fn value_eq(a: &Value, b: &Value) -> (r: bool)
    ensures
        r == abs_eq(a@, b@),
    decreases a,
{
    broadcast use group_abs_seq;
    match (a, b) {
        (Value::Int(x), Value::Int(y)) => *x == *y,
        (Value::Boolean(x), Value::Boolean(y)) => *x == *y,
        (Value::Str(x), Value::Str(y)) => x.eq(y),
        (Value::List(x), Value::List(y)) => {
            proof {
                lemma_abs_eq_seq_pointwise(abs_seq(x@), abs_seq(y@));
            }
            if x.len() != y.len() {
                return false;
            }
            let mut i: usize = 0;
            while i < x.len()
                invariant
                    0 <= i <= x.len(),
                    forall|j: int| 0 <= j < i ==> abs_eq(#[trigger] abs_seq(x@)[j], abs_seq(y@)[j]),
                decreases x.len() - i,
            {
                proof {
                    assert(decreases_to!(*a => a->List_0));
                    assert(a->List_0 == *x);
                    assert(decreases_to!(*x => x@));
                    assert(decreases_to!(x@ => x@[i as int]));
                    assert(decreases_to!(*a => x@[i as int]));
                }
                let same = value_eq(&x[i], &y[i]);
                proof {
                    assert(abs_seq(x@)[i as int] == x@[i as int]@);
                    assert(abs_seq(y@)[i as int] == y@[i as int]@);
                }
                if !same {
                    return false;
                }
                i = i + 1;
            }
            true
        },
        _ => false,
    }
}

/// The language ordering: three-way within `Int`, `Boolean` (false before
/// true), `Str` (by code point) and `List` (lexicographic); everything else
/// is incomparable.
pub open spec fn abs_cmp(a: AbsValue, b: AbsValue) -> CmpRes
    decreases a,
{
    match (a, b) {
        (AbsValue::Int(x), AbsValue::Int(y)) => if x < y {
            CmpRes::Lt
        } else if x > y {
            CmpRes::Gt
        } else {
            CmpRes::Eq
        },
        (AbsValue::Boolean(x), AbsValue::Boolean(y)) => if x == y {
            CmpRes::Eq
        } else if y {
            CmpRes::Lt
        } else {
            CmpRes::Gt
        },
        (AbsValue::Str(x), AbsValue::Str(y)) => cmp_chars(x, y),
        (AbsValue::List(x), AbsValue::List(y)) => abs_cmp_seq(x, y),
        _ => CmpRes::Incomparable,
    }
}

pub open spec fn cmp_chars(x: Seq<char>, y: Seq<char>) -> CmpRes
    decreases x.len(),
{
    if x.len() == 0 && y.len() == 0 {
        CmpRes::Eq
    } else if x.len() == 0 {
        CmpRes::Lt
    } else if y.len() == 0 {
        CmpRes::Gt
    } else if (x[0] as int) < (y[0] as int) {
        CmpRes::Lt
    } else if (x[0] as int) > (y[0] as int) {
        CmpRes::Gt
    } else {
        cmp_chars(x.drop_first(), y.drop_first())
    }
}

pub open spec fn abs_cmp_seq(x: Seq<AbsValue>, y: Seq<AbsValue>) -> CmpRes
    decreases x,
{
    if x.len() == 0 && y.len() == 0 {
        CmpRes::Eq
    } else if x.len() == 0 {
        CmpRes::Lt
    } else if y.len() == 0 {
        CmpRes::Gt
    } else {
        match abs_cmp(x[0], y[0]) {
            CmpRes::Eq => abs_cmp_seq(x.drop_first(), y.drop_first()),
            r => r,
        }
    }
}

/// What `<` yields: a boolean within a variant, an error across variants.
pub open spec fn abs_lt(a: AbsValue, b: AbsValue) -> Result<AbsValue, Error> {
    match abs_cmp(a, b) {
        CmpRes::Lt => Result::Ok(AbsValue::Boolean(true)),
        CmpRes::Eq => Result::Ok(AbsValue::Boolean(false)),
        CmpRes::Gt => Result::Ok(AbsValue::Boolean(false)),
        CmpRes::Incomparable => Result::Err(Error::TypeMismatch),
    }
}

/// What `>` yields.
pub open spec fn abs_gt(a: AbsValue, b: AbsValue) -> Result<AbsValue, Error> {
    match abs_cmp(a, b) {
        CmpRes::Gt => Result::Ok(AbsValue::Boolean(true)),
        CmpRes::Eq => Result::Ok(AbsValue::Boolean(false)),
        CmpRes::Lt => Result::Ok(AbsValue::Boolean(false)),
        CmpRes::Incomparable => Result::Err(Error::TypeMismatch),
    }
}

fn cmp_chars_str(x: &String, y: &String) -> (r: CmpRes)
    ensures
        r == cmp_chars(x@, y@),
{
    let xs = x.as_str();
    let ys = y.as_str();
    let xl = xs.unicode_len();
    let yl = ys.unicode_len();
    let mut i: usize = 0;
    proof {
        assert(x@.skip(0) =~= x@);
        assert(y@.skip(0) =~= y@);
    }
    while i < xl && i < yl
        invariant
            0 <= i <= xl,
            0 <= i <= yl,
            xl == x@.len(),
            yl == y@.len(),
            xs@ == x@,
            ys@ == y@,
            cmp_chars(x@, y@) == cmp_chars(x@.skip(i as int), y@.skip(i as int)),
        decreases xl - i,
    {
        let cx = xs.get_char(i);
        let cy = ys.get_char(i);
        let nx = cx as u32;
        let ny = cy as u32;
        if nx < ny {
            return CmpRes::Lt;
        } else if nx > ny {
            return CmpRes::Gt;
        }
        proof {
            assert(x@.skip(i as int).drop_first() =~= x@.skip(i + 1));
            assert(y@.skip(i as int).drop_first() =~= y@.skip(i + 1));
        }
        i = i + 1;
    }
    if i < yl {
        CmpRes::Lt
    } else if i < xl {
        CmpRes::Gt
    } else {
        CmpRes::Eq
    }
}

/// The language ordering, executed.
#[verifier::loop_isolation(false)]
pub fn value_cmp(a: &Value, b: &Value) -> (r: CmpRes)
    ensures
        r == abs_cmp(a@, b@),
    decreases a,
{
    broadcast use group_abs_seq;
    match (a, b) {
        (Value::Int(x), Value::Int(y)) => {
            if *x < *y {
                CmpRes::Lt
            } else if *x > *y {
                CmpRes::Gt
            } else {
                CmpRes::Eq
            }
        },
        (Value::Boolean(x), Value::Boolean(y)) => {
            if *x == *y {
                CmpRes::Eq
            } else if *y {
                CmpRes::Lt
            } else {
                CmpRes::Gt
            }
        },
        (Value::Str(x), Value::Str(y)) => cmp_chars_str(x, y),
        (Value::List(x), Value::List(y)) => {
            let xl = x.len();
            let yl = y.len();
            let mut i: usize = 0;
            proof {
                assert(abs_seq(x@).skip(0) =~= abs_seq(x@));
                assert(abs_seq(y@).skip(0) =~= abs_seq(y@));
            }
            while i < xl && i < yl
                invariant
                    0 <= i <= xl,
                    0 <= i <= yl,
                    abs_cmp_seq(abs_seq(x@), abs_seq(y@)) == abs_cmp_seq(
                        abs_seq(x@).skip(i as int),
                        abs_seq(y@).skip(i as int),
                    ),
                decreases xl - i,
            {
                proof {
                    assert(decreases_to!(*a => a->List_0));
                    assert(a->List_0 == *x);
                    assert(decreases_to!(*x => x@));
                    assert(decreases_to!(x@ => x@[i as int]));
                    assert(decreases_to!(*a => x@[i as int]));
                }
                let c = value_cmp(&x[i], &y[i]);
                if !matches!(c, CmpRes::Eq) {
                    proof {
                        assert(abs_seq(x@).skip(i as int)[0] == abs_seq(x@)[i as int]);
                        assert(abs_seq(y@).skip(i as int)[0] == abs_seq(y@)[i as int]);
                    }
                    return c;
                }
                proof {
                    assert(abs_seq(x@).skip(i as int)[0] == abs_seq(x@)[i as int]);
                    assert(abs_seq(y@).skip(i as int)[0] == abs_seq(y@)[i as int]);
                    assert(abs_seq(x@).skip(i as int).drop_first() =~= abs_seq(x@).skip(i + 1));
                    assert(abs_seq(y@).skip(i as int).drop_first() =~= abs_seq(y@).skip(i + 1));
                }
                i = i + 1;
            }
            if i < yl {
                CmpRes::Lt
            } else if i < xl {
                CmpRes::Gt
            } else {
                CmpRes::Eq
            }
        },
        _ => CmpRes::Incomparable,
    }
}

// ---------------------------------------------------------------------------
// Logic: `&&`, `||` and `not` require boolean operands.
// ---------------------------------------------------------------------------

pub open spec fn abs_and(a: AbsValue, b: AbsValue) -> Result<AbsValue, Error> {
    match (a, b) {
        (AbsValue::Boolean(x), AbsValue::Boolean(y)) => Result::Ok(AbsValue::Boolean(x && y)),
        _ => Result::Err(Error::TypeMismatch),
    }
}

pub open spec fn abs_or(a: AbsValue, b: AbsValue) -> Result<AbsValue, Error> {
    match (a, b) {
        (AbsValue::Boolean(x), AbsValue::Boolean(y)) => Result::Ok(AbsValue::Boolean(x || y)),
        _ => Result::Err(Error::TypeMismatch),
    }
}

pub open spec fn abs_not(a: AbsValue) -> Result<AbsValue, Error> {
    match a {
        AbsValue::Boolean(x) => Result::Ok(AbsValue::Boolean(!x)),
        _ => Result::Err(Error::TypeMismatch),
    }
}

// ---------------------------------------------------------------------------
// Sequence primitives: `head`, `tail`, `empty`, `length`, `cons`, `append`,
// `words`, and string parsing.
// ---------------------------------------------------------------------------

pub open spec fn abs_head(v: AbsValue) -> Result<AbsValue, Error> {
    match v {
        AbsValue::List(x) => if x.len() == 0 {
            Result::Err(Error::EmptySequence)
        } else {
            Result::Ok(x[0])
        },
        AbsValue::Str(s) => if s.len() == 0 {
            Result::Err(Error::EmptySequence)
        } else {
            Result::Ok(AbsValue::Str(s.take(1)))
        },
        _ => Result::Err(Error::TypeMismatch),
    }
}

pub open spec fn abs_tail(v: AbsValue) -> Result<AbsValue, Error> {
    match v {
        AbsValue::List(x) => if x.len() == 0 {
            Result::Err(Error::EmptySequence)
        } else {
            Result::Ok(AbsValue::List(x.drop_first()))
        },
        AbsValue::Str(s) => if s.len() == 0 {
            Result::Err(Error::EmptySequence)
        } else {
            Result::Ok(AbsValue::Str(s.drop_first()))
        },
        _ => Result::Err(Error::TypeMismatch),
    }
}

pub open spec fn abs_empty(v: AbsValue) -> Result<AbsValue, Error> {
    match v {
        AbsValue::List(x) => Result::Ok(AbsValue::Boolean(x.len() == 0)),
        AbsValue::Str(s) => Result::Ok(AbsValue::Boolean(s.len() == 0)),
        _ => Result::Err(Error::TypeMismatch),
    }
}

pub open spec fn abs_lenght(v: AbsValue) -> Result<AbsValue, Error> {
    match v {
        AbsValue::List(x) => Result::Ok(AbsValue::Int(x.len() as i64)),
        AbsValue::Str(s) => Result::Ok(AbsValue::Int(s.len() as i64)),
        _ => Result::Err(Error::TypeMismatch),
    }
}

/// `cons` in stack order: the list is on top, the value under it.
pub open spec fn abs_cons(v: AbsValue, l: AbsValue) -> Result<AbsValue, Error> {
    match l {
        AbsValue::List(x) => Result::Ok(AbsValue::List(seq![v] + x)),
        _ => Result::Err(Error::TypeMismatch),
    }
}

pub open spec fn abs_append(a: AbsValue, b: AbsValue) -> Result<AbsValue, Error> {
    match (a, b) {
        (AbsValue::List(x), AbsValue::List(y)) => Result::Ok(AbsValue::List(x + y)),
        _ => Result::Err(Error::TypeMismatch),
    }
}

pub open spec fn abs_words(v: AbsValue) -> Result<AbsValue, Error> {
    match v {
        AbsValue::Str(s) => Result::Ok(
            AbsValue::List(text::split_ws(s).map_values(|p: Seq<char>| AbsValue::Str(p))),
        ),
        _ => Result::Err(Error::TypeMismatch),
    }
}

/// What the `parseInteger` operator does to the popped value.
pub open spec fn abs_parse_integer(v: AbsValue) -> Result<AbsValue, Error> {
    match v {
        AbsValue::Str(s) => match text::parse_int(s) {
            Option::Some(n) => Result::Ok(AbsValue::Int(n)),
            Option::None => Result::Err(Error::ParseFailure),
        },
        _ => Result::Err(Error::TypeMismatch),
    }
}

impl Value {
    /// Logical conjunction of two boolean values.
    pub fn and(self, other: Self) -> (r: Result<Value, Error>)
        ensures
            res_abs(r) == abs_and(self@, other@),
    {
        match (self, other) {
            (Value::Boolean(a), Value::Boolean(b)) => Result::Ok(Value::Boolean(a && b)),
            _ => Result::Err(Error::TypeMismatch),
        }
    }

    /// Logical disjunction of two boolean values.
    pub fn or(self, other: Self) -> (r: Result<Value, Error>)
        ensures
            res_abs(r) == abs_or(self@, other@),
    {
        match (self, other) {
            (Value::Boolean(a), Value::Boolean(b)) => Result::Ok(Value::Boolean(a || b)),
            _ => Result::Err(Error::TypeMismatch),
        }
    }

    /// Logical negation of a boolean value.
    pub fn not_value(self) -> (r: Result<Value, Error>)
        ensures
            res_abs(r) == abs_not(self@),
    {
        match self {
            Value::Boolean(a) => Result::Ok(Value::Boolean(!a)),
            _ => Result::Err(Error::TypeMismatch),
        }
    }

    /// Parses a string into an integer value.
    pub fn parse_integer(input: &str) -> (r: Result<Value, Error>)
        ensures
            res_abs(r) == match text::parse_int(input@) {
                Option::Some(n) => Result::<AbsValue, Error>::Ok(AbsValue::Int(n)),
                Option::None => Result::<AbsValue, Error>::Err(Error::ParseFailure),
            },
    {
        match text::parse_int_str(input) {
            Option::Some(n) => Result::Ok(Value::Int(n)),
            Option::None => Result::Err(Error::ParseFailure),
        }
    }

    /// The first element of a list, or the first character of a string.
    pub fn head(value: &Value) -> (r: Result<Value, Error>)
        ensures
            res_abs(r) == abs_head(value@),
    {
        broadcast use group_abs_seq;
        match value {
            Value::List(list) => {
                proof {
                    abs_seq_len(list@);
                }
                if list.len() == 0 {
                    Result::Err(Error::EmptySequence)
                } else {
                    proof {
                        abs_seq_index(list@, 0);
                    }
                    Result::Ok(list[0].clone_value())
                }
            },
            Value::Str(s) => {
                if s.as_str().unicode_len() == 0 {
                    Result::Err(Error::EmptySequence)
                } else {
                    let piece = s.as_str().substring_char(0, 1);
                    proof {
                        assert(piece@ =~= s@.take(1));
                    }
                    Result::Ok(Value::Str(String::from_str(piece)))
                }
            },
            _ => Result::Err(Error::TypeMismatch),
        }
    }

    /// Everything but the first element of a list or character of a string.
    pub fn tail(value: &Value) -> (r: Result<Value, Error>)
        ensures
            res_abs(r) == abs_tail(value@),
    {
        broadcast use group_abs_seq;
        match value {
            Value::List(list) => {
                proof {
                    abs_seq_len(list@);
                }
                if list.len() == 0 {
                    Result::Err(Error::EmptySequence)
                } else {
                    let mut out: Vec<Value> = Vec::new();
                    let mut i: usize = 1;
                    while i < list.len()
                        invariant
                            1 <= i <= list@.len(),
                            out@.len() == i - 1,
                            forall|j: int| 0 <= j < i - 1 ==> out@[j]@ == list@[j + 1]@,
                        decreases list@.len() - i,
                    {
                        out.push(list[i].clone_value());
                        i = i + 1;
                    }
                    proof {
                        assert(abs_seq(out@) =~= abs_seq(list@).drop_first());
                    }
                    Result::Ok(Value::List(out))
                }
            },
            Value::Str(s) => {
                let n = s.as_str().unicode_len();
                if n == 0 {
                    Result::Err(Error::EmptySequence)
                } else {
                    let piece = s.as_str().substring_char(1, n);
                    proof {
                        assert(piece@ =~= s@.drop_first());
                    }
                    Result::Ok(Value::Str(String::from_str(piece)))
                }
            },
            _ => Result::Err(Error::TypeMismatch),
        }
    }

    /// Whether a list or string has no elements.
    pub fn empty(value: &Value) -> (r: Result<Value, Error>)
        ensures
            res_abs(r) == abs_empty(value@),
    {
        broadcast use group_abs_seq;
        match value {
            Value::List(list) => {
                proof {
                    abs_seq_len(list@);
                }
                Result::Ok(Value::Boolean(list.len() == 0))
            },
            Value::Str(s) => Result::Ok(Value::Boolean(s.as_str().unicode_len() == 0)),
            _ => Result::Err(Error::TypeMismatch),
        }
    }

    /// The element count of a list, or the character count of a string.
    pub fn lenght(value: &Value) -> (r: Result<Value, Error>)
        ensures
            res_abs(r) == abs_lenght(value@),
    {
        broadcast use group_abs_seq;
        match value {
            Value::List(list) => {
                proof {
                    abs_seq_len(list@);
                }
                Result::Ok(Value::Int(list.len() as i64))
            },
            Value::Str(s) => Result::Ok(Value::Int(s.as_str().unicode_len() as i64)),
            _ => Result::Err(Error::TypeMismatch),
        }
    }

    /// Puts a value at the front of a list.
    pub fn cons(list: &mut Vec<Value>, value: Value) -> (r: Result<(), Error>)
        ensures
            r == Result::<(), Error>::Ok(()),
            abs_seq(final(list)@) == seq![value@] + abs_seq(old(list)@),
    {
        list.insert(0, value);
        proof {
            broadcast use group_abs_seq;
            assert(abs_seq(final(list)@) =~= seq![value@] + abs_seq(old(list)@));
        }
        Result::Ok(())
    }

    /// Concatenates one list onto another.
    pub fn append(list1: &mut Vec<Value>, list2: Vec<Value>) -> (r: Result<(), Error>)
        ensures
            r == Result::<(), Error>::Ok(()),
            abs_seq(final(list1)@) == abs_seq(old(list1)@) + abs_seq(list2@),
    {
        proof {
            abs_seq_concat(old(list1)@, list2@);
        }
        let mut other = list2;
        list1.append(&mut other);
        Result::Ok(())
    }
}

} // verus!
