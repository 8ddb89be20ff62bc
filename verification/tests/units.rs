use bprog::eval::Effects;
use bprog::functions::Functions;
use bprog::render::{stack_text, value_text};
use bprog::stack::Stack;
use bprog::text::{int_string, parse_int_str, split_ws_str, trim_str};
use bprog::types::{convert, value_add, value_cmp, value_eq, CmpRes, Error, Value};
use bprog::variables::Variables;

#[test]
fn parse_int_accepts_signs_and_bounds() {
    assert_eq!(parse_int_str("0"), Some(0));
    assert_eq!(parse_int_str("+17"), Some(17));
    assert_eq!(parse_int_str("-17"), Some(-17));
    assert_eq!(parse_int_str("9223372036854775807"), Some(i64::MAX));
    assert_eq!(parse_int_str("-9223372036854775808"), Some(i64::MIN));
}

#[test]
fn parse_int_rejects_non_literals() {
    assert_eq!(parse_int_str(""), None);
    assert_eq!(parse_int_str("+"), None);
    assert_eq!(parse_int_str("-"), None);
    assert_eq!(parse_int_str("1.5"), None);
    assert_eq!(parse_int_str("12a"), None);
    assert_eq!(parse_int_str(" 12"), None);
    assert_eq!(parse_int_str("9223372036854775808"), None);
    assert_eq!(parse_int_str("-9223372036854775809"), None);
}

#[test]
fn convert_orders_integer_boolean_symbol() {
    assert!(matches!(convert("42"), Value::Int(42)));
    assert!(matches!(convert("true"), Value::Boolean(true)));
    assert!(matches!(convert("false"), Value::Boolean(false)));
    assert!(matches!(convert("truer"), Value::Symbol(_)));
    assert!(matches!(convert("1.5"), Value::Symbol(_)));
    assert!(matches!(convert("9223372036854775808"), Value::Symbol(_)));
}

#[test]
fn int_rendering_matches_decimal() {
    assert_eq!(int_string(0), "0");
    assert_eq!(int_string(305), "305");
    assert_eq!(int_string(-7), "-7");
    assert_eq!(int_string(i64::MAX), "9223372036854775807");
    assert_eq!(int_string(i64::MIN), "-9223372036854775808");
}

#[test]
fn trim_removes_outer_whitespace_only() {
    assert_eq!(trim_str("  a b  "), "a b");
    assert_eq!(trim_str("a"), "a");
    assert_eq!(trim_str("   "), "");
    assert_eq!(trim_str(""), "");
    assert_eq!(trim_str("\t x \n"), "x");
}

#[test]
fn split_ws_finds_maximal_runs() {
    let pieces = split_ws_str(" one  two\tthree ");
    let texts: Vec<&str> = pieces.iter().map(|s| s.as_str()).collect();
    assert_eq!(texts, vec!["one", "two", "three"]);
    assert!(split_ws_str("   ").is_empty());
}

#[test]
fn display_forms() {
    assert_eq!(value_text(&Value::Int(3)), "3");
    assert_eq!(value_text(&Value::Boolean(true)), "true");
    assert_eq!(value_text(&Value::Str("hi".to_string())), "\" hi \"");
    assert_eq!(
        value_text(&Value::List(vec![Value::Int(1), Value::Int(2)])),
        "[ 1 2 ]"
    );
    assert_eq!(value_text(&Value::List(Vec::new())), "[  ]");
    assert_eq!(
        value_text(&Value::Block(vec!["dup".to_string(), "*".to_string()])),
        "{ dup * }"
    );
    assert_eq!(value_text(&Value::Symbol("age".to_string())), "age");
}

#[test]
fn stack_renders_bottom_first() {
    let mut stack = Stack::new();
    assert_eq!(stack_text(&stack), "[]");
    stack.push(Value::Int(1));
    stack.push(Value::Int(2));
    assert_eq!(stack_text(&stack), "[1 2]");
}

#[test]
fn stack_shuffle_lengths() {
    let mut stack = Stack::new();
    stack.push(Value::Int(1));
    let before = stack.len();
    stack.dup().unwrap();
    assert_eq!(stack.len(), before + 1);
    stack.swap().unwrap();
    assert_eq!(stack.len(), before + 1);
    stack.pop().unwrap();
    assert_eq!(stack.len(), before);
}

#[test]
fn environment_is_last_write_wins() {
    let mut vars = Variables::new();
    assert!(vars.get("x").is_none());
    vars.set("x", Value::Int(1));
    vars.set("x", Value::Int(2));
    assert!(matches!(vars.get("x"), Some(Value::Int(2))));
    let mut funs = Functions::new();
    funs.set("f", Value::Block(vec!["dup".to_string()]));
    assert!(matches!(funs.get("f"), Some(Value::Block(_))));
    assert!(funs.get("x").is_none());
}

#[test]
fn value_addition_is_typed() {
    assert!(matches!(
        value_add(Value::Int(2), Value::Int(3)),
        Ok(Value::Int(5))
    ));
    let cat = value_add(
        Value::Str("ab".to_string()),
        Value::Str("cd".to_string()),
    );
    match cat {
        Ok(Value::Str(s)) => assert_eq!(s, "abcd"),
        _ => panic!("expected a string"),
    }
    assert_eq!(
        value_add(Value::Int(1), Value::Boolean(true)).err(),
        Some(Error::TypeMismatch)
    );
}

#[test]
fn wrapping_addition_at_the_edge() {
    match value_add(Value::Int(i64::MAX), Value::Int(1)) {
        Ok(Value::Int(n)) => assert_eq!(n, i64::MIN),
        _ => panic!("expected an integer"),
    }
}

#[test]
fn equality_is_structural_within_a_variant() {
    assert!(value_eq(&Value::Int(3), &Value::Int(3)));
    assert!(!value_eq(&Value::Int(3), &Value::Boolean(true)));
    let a = Value::List(vec![Value::Int(1), Value::Str("x".to_string())]);
    let b = Value::List(vec![Value::Int(1), Value::Str("x".to_string())]);
    assert!(value_eq(&a, &b));
    // blocks never compare equal, even to themselves
    let blk = Value::Block(vec!["1".to_string()]);
    assert!(!value_eq(&blk, &blk));
}

#[test]
fn ordering_is_lexicographic() {
    assert!(matches!(
        value_cmp(&Value::Str("abc".to_string()), &Value::Str("abd".to_string())),
        CmpRes::Lt
    ));
    assert!(matches!(
        value_cmp(&Value::Str("ab".to_string()), &Value::Str("abc".to_string())),
        CmpRes::Lt
    ));
    let a = Value::List(vec![Value::Int(1), Value::Int(2)]);
    let b = Value::List(vec![Value::Int(1), Value::Int(3)]);
    assert!(matches!(value_cmp(&a, &b), CmpRes::Lt));
    assert!(matches!(value_cmp(&b, &a), CmpRes::Gt));
    assert!(matches!(value_cmp(&a, &a), CmpRes::Eq));
    assert!(matches!(
        value_cmp(&Value::Int(1), &Value::Boolean(true)),
        CmpRes::Incomparable
    ));
    assert!(matches!(
        value_cmp(&Value::Boolean(false), &Value::Boolean(true)),
        CmpRes::Lt
    ));
}

#[test]
fn effects_start_empty() {
    let io = Effects::new();
    assert!(io.input.is_empty());
    assert!(io.output.is_empty());
}

#[test]
fn deep_values_round_trip_through_clone() {
    let v = Value::List(vec![
        Value::Int(1),
        Value::List(vec![Value::Str("s".to_string())]),
        Value::Block(vec!["+".to_string()]),
    ]);
    let c = v.clone_value();
    assert_eq!(value_text(&v), value_text(&c));
}
