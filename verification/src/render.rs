//! Rendering values as text: integers, booleans and symbols in their native
//! form, strings quoted with inner spaces, lists bracketed with spaced
//! elements, blocks braced with their raw tokens.
use vstd::prelude::*;
use crate::text;
use crate::types::{abs_seq, group_abs_seq, AbsValue, Value};
use crate::variables::Variables;

verus! {

/// The text of a value.
pub open spec fn render(v: AbsValue) -> Seq<char>
    decreases v, 1int,
{
    match v {
        AbsValue::Int(n) => text::int_text(n as int),
        AbsValue::Boolean(b) => if b {
            "true"@
        } else {
            "false"@
        },
        AbsValue::Str(s) => "\" "@ + s + " \""@,
        AbsValue::List(xs) => "[ "@ + render_items(xs) + " ]"@,
        AbsValue::Block(ts) => "{ "@ + join_tokens(ts) + " }"@,
        AbsValue::Symbol(s) => s,
    }
}

/// The texts of a list's elements, joined with single spaces.
pub open spec fn render_items(xs: Seq<AbsValue>) -> Seq<char>
    decreases xs, 0int,
{
    if xs.len() == 0 {
        Seq::empty()
    } else if xs.len() == 1 {
        render(xs[0])
    } else {
        render_items(xs.drop_last()) + " "@ + render(xs.last())
    }
}

/// Raw tokens joined with single spaces.
pub open spec fn join_tokens(ts: Seq<Seq<char>>) -> Seq<char>
    decreases ts.len(),
{
    if ts.len() == 0 {
        Seq::empty()
    } else if ts.len() == 1 {
        ts[0]
    } else {
        join_tokens(ts.drop_last()) + " "@ + ts.last()
    }
}

/// The text of a value with variables resolved: a symbol element of a list
/// that names a variable is rendered as that variable's value.
pub open spec fn render_with_vars(v: AbsValue, vars: Map<Seq<char>, AbsValue>) -> Seq<char> {
    match v {
        AbsValue::List(xs) => "[ "@ + render_resolved(xs, vars) + " ]"@,
        _ => render(v),
    }
}

pub open spec fn resolve_item(x: AbsValue, vars: Map<Seq<char>, AbsValue>) -> AbsValue {
    match x {
        AbsValue::Symbol(s) => if vars.contains_key(s) {
            vars[s]
        } else {
            x
        },
        _ => x,
    }
}

pub open spec fn render_resolved(xs: Seq<AbsValue>, vars: Map<Seq<char>, AbsValue>) -> Seq<char>
    decreases xs.len(),
{
    if xs.len() == 0 {
        Seq::empty()
    } else if xs.len() == 1 {
        render(resolve_item(xs[0], vars))
    } else {
        render_resolved(xs.drop_last(), vars) + " "@ + render(resolve_item(xs.last(), vars))
    }
}

/// The text of the whole stack, bottom first, single brackets round it.
pub open spec fn render_stack(s: Seq<AbsValue>) -> Seq<char> {
    "["@ + render_items(s) + "]"@
}

/// Renders a value.
#[verifier::loop_isolation(false)]
pub fn value_text(v: &Value) -> (r: String)
    ensures
        r@ == render(v@),
    decreases v,
{
    broadcast use group_abs_seq;
    match v {
        Value::Int(n) => text::int_string(*n),
        Value::Boolean(b) => {
            if *b {
                String::from_str("true")
            } else {
                String::from_str("false")
            }
        },
        Value::Str(s) => {
            let mut r = String::from_str("\" ");
            r.append(s.as_str());
            r.append(" \"");
            proof {
                assert(r@ =~= render(v@));
            }
            r
        },
        Value::List(xs) => {
            let mut r = String::from_str("[ ");
            let mut i: usize = 0;
            while i < xs.len()
                invariant
                    0 <= i <= xs@.len(),
                    r@ == "[ "@ + render_items(abs_seq(xs@).take(i as int)),
                decreases xs@.len() - i,
            {
                proof {
                    assert(decreases_to!(*v => v->List_0));
                    assert(v->List_0 == *xs);
                    assert(decreases_to!(*xs => xs@));
                    assert(decreases_to!(xs@ => xs@[i as int]));
                    assert(decreases_to!(*v => xs@[i as int]));
                }
                let item = value_text(&xs[i]);
                if i > 0 {
                    r.append(" ");
                }
                r.append(item.as_str());
                proof {
                    let taken = abs_seq(xs@).take(i + 1);
                    assert(taken.drop_last() =~= abs_seq(xs@).take(i as int));
                    assert(taken.last() == abs_seq(xs@)[i as int]);
                    if i == 0 {
                        assert(r@ =~= "[ "@ + render_items(taken));
                    } else {
                        assert(r@ =~= "[ "@ + render_items(taken));
                    }
                }
                i = i + 1;
            }
            r.append(" ]");
            proof {
                assert(abs_seq(xs@).take(xs@.len() as int) =~= abs_seq(xs@));
                assert(r@ =~= render(v@));
            }
            r
        },
        Value::Block(ts) => {
            let mut r = String::from_str("{ ");
            let mut i: usize = 0;
            while i < ts.len()
                invariant
                    0 <= i <= ts@.len(),
                    r@ == "{ "@ + join_tokens(ts.deep_view().take(i as int)),
                decreases ts@.len() - i,
            {
                if i > 0 {
                    r.append(" ");
                }
                r.append(ts[i].as_str());
                proof {
                    let taken = ts.deep_view().take(i + 1);
                    assert(taken.drop_last() =~= ts.deep_view().take(i as int));
                    assert(taken.last() == ts.deep_view()[i as int]);
                    assert(r@ =~= "{ "@ + join_tokens(taken));
                }
                i = i + 1;
            }
            r.append(" }");
            proof {
                assert(ts.deep_view().take(ts@.len() as int) =~= ts.deep_view());
                assert(r@ =~= render(v@));
            }
            r
        },
        Value::Symbol(s) => {
            let r = s.clone();
            r
        },
    }
}

impl Value {
    /// Renders a value, resolving symbol elements of a list against the
    /// variable environment.
    #[verifier::loop_isolation(false)]
    pub fn to_string_with_variables(&self, vars: &Variables) -> (r: String)
        ensures
            r@ == render_with_vars(self@, vars@),
    {
        broadcast use group_abs_seq;
        match self {
            Value::List(xs) => {
                let mut r = String::from_str("[ ");
                let mut i: usize = 0;
                while i < xs.len()
                    invariant
                        0 <= i <= xs@.len(),
                        r@ == "[ "@ + render_resolved(abs_seq(xs@).take(i as int), vars@),
                    decreases xs@.len() - i,
                {
                    let item = match &xs[i] {
                        Value::Symbol(name) => {
                            match vars.get(name.as_str()) {
                                Option::Some(bound) => value_text(bound),
                                Option::None => value_text(&xs[i]),
                            }
                        },
                        _ => value_text(&xs[i]),
                    };
                    if i > 0 {
                        r.append(" ");
                    }
                    r.append(item.as_str());
                    proof {
                        let taken = abs_seq(xs@).take(i + 1);
                        assert(taken.drop_last() =~= abs_seq(xs@).take(i as int));
                        assert(taken.last() == abs_seq(xs@)[i as int]);
                        assert(r@ =~= "[ "@ + render_resolved(taken, vars@));
                    }
                    i = i + 1;
                }
                r.append(" ]");
                proof {
                    assert(abs_seq(xs@).take(xs@.len() as int) =~= abs_seq(xs@));
                    assert(r@ =~= render_with_vars(self@, vars@));
                }
                r
            },
            _ => {
                let r = value_text(self);
                r
            },
        }
    }
}

/// Renders the stack, bottom first.
#[verifier::loop_isolation(false)]
pub fn stack_text(stack: &crate::stack::Stack) -> (r: String)
    ensures
        r@ == render_stack(stack@),
{
    let mut r = String::from_str("[");
    let n = stack.len();
    let mut i: usize = 0;
    while i < n
        invariant
            0 <= i <= n,
            n == stack@.len(),
            r@ == "["@ + render_items(stack@.take(i as int)),
        decreases n - i,
    {
        let item = value_text(stack.get(i));
        if i > 0 {
            r.append(" ");
        }
        r.append(item.as_str());
        proof {
            let taken = stack@.take(i + 1);
            assert(taken.drop_last() =~= stack@.take(i as int));
            assert(taken.last() == stack@[i as int]);
            assert(r@ =~= "["@ + render_items(taken));
        }
        i = i + 1;
    }
    r.append("]");
    proof {
        assert(stack@.take(stack@.len() as int) =~= stack@);
        assert(r@ =~= render_stack(stack@));
    }
    r
}

} // verus!
