//! The structural reader: sub-parsers that recover nested literal structure
//! (quoted strings, lists, code blocks) from the flat token stream.  All
//! three consume tokens from the same forward-only position and leave it
//! just past the matching closer; running out of tokens yields a best-effort
//! truncated value.
use vstd::prelude::*;
use crate::text;
use crate::types::{abs_seq, conv, convert, group_abs_seq, AbsValue, Error, Value};

verus! {

/// The characters of a string literal read from `i`: the consumed tokens
/// joined by single spaces (each token followed by one space), up to but not
/// including a lone `"` token, and the position past that token.  The final
/// string value trims this text.
pub open spec fn read_string_s(ts: Seq<Seq<char>>, i: int, acc: Seq<char>) -> (Seq<char>, int)
    decreases ts.len() - i,
{
    if i < 0 || i >= ts.len() {
        (acc, i)
    } else if ts[i] == "\""@ {
        (acc, i + 1)
    } else {
        read_string_s(ts, i + 1, acc + ts[i] + " "@)
    }
}

/// The tokens of a block read from `i` at brace depth `depth`, and the
/// position past the closing brace.  Nested braces are kept verbatim so the
/// block can be re-executed.
pub open spec fn read_block_s(ts: Seq<Seq<char>>, i: int, depth: int, acc: Seq<Seq<char>>) -> (
    Seq<Seq<char>>,
    int,
)
    decreases ts.len() - i,
{
    if i < 0 || i >= ts.len() {
        (acc, i)
    } else if ts[i] == "{"@ {
        read_block_s(ts, i + 1, depth + 1, acc.push(ts[i]))
    } else if ts[i] == "}"@ {
        if depth == 1 {
            (acc, i + 1)
        } else {
            read_block_s(ts, i + 1, depth - 1, acc.push(ts[i]))
        }
    } else {
        read_block_s(ts, i + 1, depth, acc.push(ts[i]))
    }
}

/// The elements of a list read from `i`, and the position past the closing
/// bracket.  `"` opens a nested string, `[` a nested list, `{` a nested
/// block; any other token is converted by the literal-conversion rule.
pub open spec fn read_list_s(ts: Seq<Seq<char>>, i: int, acc: Seq<AbsValue>) -> (
    Seq<AbsValue>,
    int,
)
    decreases ts.len() - i, 0int,
{
    if i < 0 || i >= ts.len() {
        (acc, i)
    } else if ts[i] == "]"@ {
        (acc, i + 1)
    } else if ts[i] == "\""@ {
        let (s, i2) = read_string_s(ts, i + 1, Seq::empty());
        if i < i2 && i2 <= ts.len() {
            read_list_s(ts, i2, acc.push(AbsValue::Str(text::trim_s(s))))
        } else {
            (acc, i)
        }
    } else if ts[i] == "["@ {
        let (inner, i2) = read_list_s(ts, i + 1, Seq::empty());
        if i < i2 && i2 <= ts.len() {
            read_list_s(ts, i2, acc.push(AbsValue::List(inner)))
        } else {
            (acc, i)
        }
    } else if ts[i] == "{"@ {
        let (b, i2) = read_block_s(ts, i + 1, 1, Seq::empty());
        if i < i2 && i2 <= ts.len() {
            read_list_s(ts, i2, acc.push(AbsValue::Block(b)))
        } else {
            (acc, i)
        }
    } else {
        read_list_s(ts, i + 1, acc.push(conv(ts[i])))
    }
}

pub proof fn lemma_read_string_bounds(ts: Seq<Seq<char>>, i: int, acc: Seq<char>)
    requires
        0 <= i <= ts.len(),
    ensures
        ({
            let (_, n) = read_string_s(ts, i, acc);
            i <= n <= ts.len() && (i < ts.len() ==> n > i)
        }),
    decreases ts.len() - i,
{
    if i < ts.len() && ts[i] != "\""@ {
        lemma_read_string_bounds(ts, i + 1, acc + ts[i] + " "@);
    }
}

pub proof fn lemma_read_block_bounds(ts: Seq<Seq<char>>, i: int, depth: int, acc: Seq<Seq<char>>)
    requires
        0 <= i <= ts.len(),
    ensures
        ({
            let (_, n) = read_block_s(ts, i, depth, acc);
            i <= n <= ts.len() && (i < ts.len() ==> n > i)
        }),
    decreases ts.len() - i,
{
    if i < ts.len() {
        if ts[i] == "{"@ {
            lemma_read_block_bounds(ts, i + 1, depth + 1, acc.push(ts[i]));
        } else if ts[i] == "}"@ {
            if depth != 1 {
                lemma_read_block_bounds(ts, i + 1, depth - 1, acc.push(ts[i]));
            }
        } else {
            lemma_read_block_bounds(ts, i + 1, depth, acc.push(ts[i]));
        }
    }
}

pub proof fn lemma_read_list_bounds(ts: Seq<Seq<char>>, i: int, acc: Seq<AbsValue>)
    requires
        0 <= i <= ts.len(),
    ensures
        ({
            let (_, n) = read_list_s(ts, i, acc);
            i <= n <= ts.len() && (i < ts.len() ==> n > i)
        }),
    decreases ts.len() - i,
{
    if i < ts.len() {
        if ts[i] == "]"@ {
        } else if ts[i] == "\""@ {
            let (s, i2) = read_string_s(ts, i + 1, Seq::empty());
            lemma_read_string_bounds(ts, i + 1, Seq::empty());
            lemma_read_list_bounds(ts, i2, acc.push(AbsValue::Str(text::trim_s(s))));
        } else if ts[i] == "["@ {
            let (inner, i2) = read_list_s(ts, i + 1, Seq::empty());
            lemma_read_list_bounds(ts, i + 1, Seq::empty());
            lemma_read_list_bounds(ts, i2, acc.push(AbsValue::List(inner)));
        } else if ts[i] == "{"@ {
            let (b, i2) = read_block_s(ts, i + 1, 1, Seq::empty());
            lemma_read_block_bounds(ts, i + 1, 1, Seq::empty());
            lemma_read_list_bounds(ts, i2, acc.push(AbsValue::Block(b)));
        } else {
            lemma_read_list_bounds(ts, i + 1, acc.push(conv(ts[i])));
        }
    }
}

/// Reads a string literal: consumes tokens up to and including the closing
/// `"`, joining them with single spaces and trimming the ends.
#[verifier::loop_isolation(false)]
pub fn read_string(tokens: &Vec<String>, pos: &mut usize) -> (v: Value)
    requires
        *old(pos) <= tokens@.len(),
    ensures
        ({
            let (s, n) = read_string_s(tokens.deep_view(), *old(pos) as int, Seq::empty());
            *final(pos) == n && v@ == AbsValue::Str(text::trim_s(s))
        }),
        *old(pos) <= *final(pos) <= tokens@.len(),
{
    let ghost ts = tokens.deep_view();
    let ghost start = *pos as int;
    proof {
        lemma_read_string_bounds(ts, start, Seq::empty());
    }
    let mut acc = String::new();
    while *pos < tokens.len()
        invariant
            start <= *pos as int <= tokens@.len(),
            read_string_s(ts, start, Seq::empty()) == read_string_s(ts, *pos as int, acc@),
        decreases tokens@.len() - *pos as int,
    {
        let tok = &tokens[*pos];
        if text::str_is(tok.as_str(), "\"") {
            *pos = *pos + 1;
            let trimmed = text::trim_str(acc.as_str());
            return Value::Str(trimmed);
        }
        let ghost before = acc@;
        acc.append(tok.as_str());
        acc.append(" ");
        proof {
            assert(acc@ =~= before + ts[*pos as int] + " "@);
        }
        *pos = *pos + 1;
    }
    let trimmed = text::trim_str(acc.as_str());
    Value::Str(trimmed)
}

/// Reads a block literal: consumes tokens, tracking brace depth, up to and
/// including the matching `}`; the kept tokens are the block's source.
#[verifier::loop_isolation(false)]
pub fn read_block(tokens: &Vec<String>, pos: &mut usize) -> (r: Result<Value, Error>)
    requires
        *old(pos) <= tokens@.len(),
    ensures
        ({
            let (b, n) = read_block_s(tokens.deep_view(), *old(pos) as int, 1, Seq::empty());
            *final(pos) == n && (match r {
                Result::Ok(v) => v@ == AbsValue::Block(b),
                Result::Err(_) => false,
            })
        }),
        *old(pos) <= *final(pos) <= tokens@.len(),
{
    let ghost ts = tokens.deep_view();
    let ghost start = *pos as int;
    proof {
        lemma_read_block_bounds(ts, start, 1, Seq::empty());
    }
    let mut acc: Vec<String> = Vec::new();
    let mut depth: u128 = 1;
    proof {
        assert(acc.deep_view() =~= Seq::<Seq<char>>::empty());
    }
    while *pos < tokens.len()
        invariant
            start <= *pos as int <= tokens@.len(),
            1 <= depth as int <= 1 + (*pos as int - start),
            read_block_s(ts, start, 1, Seq::empty()) == read_block_s(
                ts,
                *pos as int,
                depth as int,
                acc.deep_view(),
            ),
        decreases tokens@.len() - *pos as int,
    {
        let tok = &tokens[*pos];
        let ghost before = acc.deep_view();
        if text::str_is(tok.as_str(), "{") {
            depth = depth + 1;
            acc.push(tok.clone());
            proof {
                assert(acc.deep_view() =~= before.push(ts[*pos as int]));
            }
        } else if text::str_is(tok.as_str(), "}") {
            if depth == 1 {
                *pos = *pos + 1;
                return Result::Ok(Value::Block(acc));
            }
            depth = depth - 1;
            acc.push(tok.clone());
            proof {
                assert(acc.deep_view() =~= before.push(ts[*pos as int]));
            }
        } else {
            acc.push(tok.clone());
            proof {
                assert(acc.deep_view() =~= before.push(ts[*pos as int]));
            }
        }
        *pos = *pos + 1;
    }
    Result::Ok(Value::Block(acc))
}

/// Reads a list literal: elements are parsed to final form; `"`, `[` and `{`
/// open nested literals through the same position.
#[verifier::loop_isolation(false)]
pub fn read_list(tokens: &Vec<String>, pos: &mut usize) -> (r: Result<Value, Error>)
    requires
        *old(pos) <= tokens@.len(),
    ensures
        ({
            let (items, n) = read_list_s(tokens.deep_view(), *old(pos) as int, Seq::empty());
            *final(pos) == n && (match r {
                Result::Ok(v) => v@ == AbsValue::List(items),
                Result::Err(_) => false,
            })
        }),
        *old(pos) <= *final(pos) <= tokens@.len(),
    decreases tokens@.len() - *old(pos) as int,
{
    broadcast use group_abs_seq;
    let ghost ts = tokens.deep_view();
    let ghost start = *pos as int;
    proof {
        lemma_read_list_bounds(ts, start, Seq::empty());
    }
    let mut acc: Vec<Value> = Vec::new();
    proof {
        assert(abs_seq(acc@) =~= Seq::<AbsValue>::empty());
    }
    while *pos < tokens.len()
        invariant
            start <= *pos as int <= tokens@.len(),
            read_list_s(ts, start, Seq::empty()) == read_list_s(ts, *pos as int, abs_seq(acc@)),
        decreases tokens@.len() - *pos as int,
    {
        let ghost here = *pos as int;
        let ghost before = abs_seq(acc@);
        let tok_owned = tokens[*pos].clone();
        let tok = tok_owned.as_str();
        if text::str_is(tok, "]") {
            *pos = *pos + 1;
            return Result::Ok(Value::List(acc));
        } else if text::str_is(tok, "\"") {
            *pos = *pos + 1;
            proof {
                lemma_read_string_bounds(ts, here + 1, Seq::empty());
            }
            let v = read_string(tokens, pos);
            acc.push(v);
            proof {
                let (s, i2) = read_string_s(ts, here + 1, Seq::empty());
                assert(abs_seq(acc@) =~= before.push(AbsValue::Str(text::trim_s(s))));
            }
        } else if text::str_is(tok, "[") {
            *pos = *pos + 1;
            proof {
                lemma_read_list_bounds(ts, here + 1, Seq::empty());
            }
            let v = read_list(tokens, pos)?;
            acc.push(v);
            proof {
                let (inner, i2) = read_list_s(ts, here + 1, Seq::empty());
                assert(abs_seq(acc@) =~= before.push(AbsValue::List(inner)));
            }
        } else if text::str_is(tok, "{") {
            *pos = *pos + 1;
            proof {
                lemma_read_block_bounds(ts, here + 1, 1, Seq::empty());
            }
            let v = read_block(tokens, pos)?;
            acc.push(v);
            proof {
                let (b, i2) = read_block_s(ts, here + 1, 1, Seq::empty());
                assert(abs_seq(acc@) =~= before.push(AbsValue::Block(b)));
            }
        } else {
            let v = convert(tok);
            acc.push(v);
            proof {
                assert(abs_seq(acc@) =~= before.push(conv(ts[here])));
            }
            *pos = *pos + 1;
        }
    }
    Result::Ok(Value::List(acc))
}

} // verus!
