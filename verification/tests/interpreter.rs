use bprog::eval::Effects;
use bprog::functions::Functions;
use bprog::render::stack_text;
use bprog::stack::Stack;
use bprog::types::{Error, Value};
use bprog::variables::Variables;

fn tokenize(program: &str) -> Vec<String> {
    program.split_whitespace().map(|s| s.to_string()).collect()
}

fn run_with(program: &str, fuel: u64, input: Vec<String>) -> (Stack, Result<(), Error>, Effects) {
    let block = Value::Block(tokenize(program));
    let mut stack = Stack::new();
    let mut variables = Variables::new();
    let mut functions = Functions::new();
    let mut io = Effects { input, output: String::new() };
    let result = block.exec(&mut stack, &mut variables, &mut functions, &mut io, fuel);
    (stack, result, io)
}

fn run(program: &str) -> (Stack, Result<(), Error>, Effects) {
    run_with(program, 10_000, Vec::new())
}

fn final_stack(program: &str) -> String {
    let (stack, result, _) = run(program);
    assert!(result.is_ok(), "program `{}` failed: {:?}", program, result);
    stack_text(&stack)
}

fn final_error(program: &str) -> Error {
    let (_, result, _) = run(program);
    result.expect_err(&format!("program `{}` unexpectedly succeeded", program))
}

#[test]
fn integer_addition() {
    assert_eq!(final_stack("1 2 +"), "[3]");
}

#[test]
fn string_concatenation() {
    // the reader joins and trims each quoted literal, so the two strings
    // concatenate without a separator
    assert_eq!(final_stack("\" hello \" \" world \" +"), "[\" helloworld \"]");
}

#[test]
fn map_doubles_elements() {
    assert_eq!(final_stack("[ 1 2 3 ] map { 2 * }"), "[[ 2 4 6 ]]");
}

#[test]
fn foldl_sums_elements() {
    assert_eq!(final_stack("[ 1 2 3 4 ] 0 foldl { + }"), "[10]");
}

#[test]
fn assign_then_recall() {
    assert_eq!(final_stack("age 42 := age"), "[42]");
}

#[test]
fn function_definition_and_call() {
    assert_eq!(final_stack("square { dup * } fun 5 square"), "[25]");
}

#[test]
fn times_repeats_block() {
    assert_eq!(final_stack("3 times { 1 }"), "[1 1 1]");
}

#[test]
fn loop_counts_to_three() {
    assert_eq!(final_stack("0 loop { dup 3 == } { 1 + }"), "[3]");
}

#[test]
fn division_by_zero_fails_with_operands_popped() {
    let (stack, result, _) = run("1 0 /");
    assert_eq!(result, Err(Error::ArithmeticDomain));
    assert_eq!(stack_text(&stack), "[]");
}

#[test]
fn head_of_list_and_of_empty_list() {
    assert_eq!(final_stack("[ 1 2 ] head"), "[1]");
    assert_eq!(final_error("[ ] head"), Error::EmptySequence);
}

#[test]
fn literal_leaves_itself() {
    assert_eq!(final_stack("7"), "[7]");
    assert_eq!(final_stack("-5"), "[-5]");
    assert_eq!(final_stack("true"), "[true]");
}

#[test]
fn subtraction_multiplication_division() {
    assert_eq!(final_stack("7 2 -"), "[5]");
    assert_eq!(final_stack("6 7 *"), "[42]");
    assert_eq!(final_stack("7 2 /"), "[3]");
    assert_eq!(final_stack("7 2 div"), "[3]");
}

#[test]
fn division_truncates_toward_zero() {
    assert_eq!(final_stack("-7 2 /"), "[-3]");
    assert_eq!(final_stack("7 -2 /"), "[-3]");
    assert_eq!(final_stack("-7 -2 /"), "[3]");
}

#[test]
fn comparison_within_type() {
    assert_eq!(final_stack("1 2 <"), "[true]");
    assert_eq!(final_stack("1 2 >"), "[false]");
    assert_eq!(final_stack("2 2 =="), "[true]");
    assert_eq!(final_stack("1 2 =="), "[false]");
}

#[test]
fn comparison_totality_for_ints() {
    // of <, == and > exactly one holds for each ordered pair
    for (a, b) in [(1, 2), (2, 2), (3, 2)] {
        let program_lt = format!("{} {} <", a, b);
        let program_eq = format!("{} {} ==", a, b);
        let program_gt = format!("{} {} >", a, b);
        let shown: Vec<String> = [program_lt, program_eq, program_gt]
            .iter()
            .map(|p| final_stack(p))
            .collect();
        let trues = shown.iter().filter(|s| *s == "[true]").count();
        assert_eq!(trues, 1);
    }
}

#[test]
fn mixed_equality_is_false_mixed_ordering_fails() {
    assert_eq!(final_stack("1 true =="), "[false]");
    assert_eq!(final_error("1 true <"), Error::TypeMismatch);
}

#[test]
fn logic_operators() {
    assert_eq!(final_stack("true false &&"), "[false]");
    assert_eq!(final_stack("true false ||"), "[true]");
    assert_eq!(final_stack("true not"), "[false]");
    assert_eq!(final_error("1 not"), Error::TypeMismatch);
}

#[test]
fn stack_shuffles() {
    assert_eq!(final_stack("1 2 dup"), "[1 2 2]");
    assert_eq!(final_stack("1 2 swap"), "[2 1]");
    assert_eq!(final_stack("1 2 pop"), "[1]");
    assert_eq!(final_error("pop"), Error::StackUnderflow);
}

#[test]
fn string_primitives() {
    assert_eq!(final_stack("\" abc \" head"), "[\" a \"]");
    assert_eq!(final_stack("\" abc \" tail"), "[\" bc \"]");
    assert_eq!(final_stack("\" abc \" length"), "[3]");
    assert_eq!(final_stack("\" \" empty"), "[true]");
    assert_eq!(final_error("\" \" head"), Error::EmptySequence);
}

#[test]
fn words_splits_a_string() {
    assert_eq!(
        final_stack("\" one two three \" words"),
        "[[ \" one \" \" two \" \" three \" ]]"
    );
}

#[test]
fn cons_and_append() {
    assert_eq!(final_stack("1 [ 2 3 ] cons"), "[[ 1 2 3 ]]");
    assert_eq!(final_stack("[ 1 ] [ 2 ] append"), "[[ 1 2 ]]");
    assert_eq!(final_error("1 2 cons"), Error::TypeMismatch);
}

#[test]
fn parse_integer_replaces_string() {
    assert_eq!(final_stack("\" 42 \" parseInteger"), "[42]");
    assert_eq!(final_error("\" x \" parseInteger"), Error::ParseFailure);
}

#[test]
fn parse_float_is_outside_the_value_set() {
    assert_eq!(final_error("\" 1.5 \" parseFloat"), Error::ParseFailure);
}

#[test]
fn if_runs_chosen_branch() {
    assert_eq!(final_stack("true if { 1 } { 2 }"), "[1]");
    assert_eq!(final_stack("false if { 1 } { 2 }"), "[2]");
    assert_eq!(final_stack("true if 1 2"), "[1]");
    assert_eq!(final_error("1 if { 1 } { 2 }"), Error::TypeMismatch);
}

#[test]
fn each_pushes_every_result() {
    assert_eq!(final_stack("[ 1 2 ] each { 10 * }"), "[10 20]");
}

#[test]
fn each_on_empty_list_changes_nothing() {
    assert_eq!(final_stack("5 [ ] each { }"), "[5]");
}

#[test]
fn foldl_with_empty_body() {
    // with nothing to combine them, each element replaces the accumulator
    assert_eq!(final_stack("[ ] 9 foldl { }"), "[9]");
    let (stack, result, _) = run("[ 1 2 ] 9 foldl { }");
    assert!(result.is_ok());
    // the superseded accumulators stay below; the last element ends on top
    assert_eq!(stack_text(&stack), "[9 1 2]");
}

#[test]
fn map_result_has_input_length() {
    for program in ["[ ] map { 1 + }", "[ 5 ] map { 1 + }", "[ 5 6 7 ] map { 1 + }"] {
        let (stack, result, _) = run(program);
        assert!(result.is_ok());
        assert_eq!(stack.len(), 1);
        match stack.get(0) {
            Value::List(items) => {
                let want = program.matches(char::is_numeric).count() - 1;
                assert_eq!(items.len(), want);
            },
            _ => panic!("expected a list on the stack"),
        }
    }
}

#[test]
fn exec_runs_a_block() {
    assert_eq!(final_stack("{ 1 2 + } exec"), "[3]");
    assert_eq!(final_error("1 exec"), Error::TypeMismatch);
}

#[test]
fn nested_blocks_keep_their_shape() {
    assert_eq!(final_stack("{ 1 { 2 } 3 }"), "[{ 1 { 2 } 3 }]");
    assert_eq!(final_stack("true if { { 7 } exec } 0"), "[7]");
}

#[test]
fn nested_lists() {
    assert_eq!(final_stack("[ 1 [ 2 3 ] ]"), "[[ 1 [ 2 3 ] ]]");
}

#[test]
fn variable_shadows_operator() {
    // a binding for `+` (made through a symbol in a list, since a bare
    // `+` would run the operator) takes precedence over the operator
    assert_eq!(final_stack("[ + ] head 42 := 1 2 +"), "[1 2 42]");
}

#[test]
fn read_takes_next_input_line() {
    let (stack, result, _) = run_with("read", 100, vec!["  hi  ".to_string()]);
    assert!(result.is_ok());
    assert_eq!(stack_text(&stack), "[\" hi \"]");
}

#[test]
fn read_on_exhausted_input_pushes_empty_string() {
    let (stack, result, _) = run_with("read", 100, Vec::new());
    assert!(result.is_ok());
    assert_eq!(stack_text(&stack), "[\"  \"]");
}

#[test]
fn print_and_println_emit_resolved_text() {
    let (_, result, io) = run("5 print");
    assert!(result.is_ok());
    assert_eq!(io.output, "5");
    let (_, result, io) = run("x 7 := [ x ] println");
    assert!(result.is_ok());
    assert_eq!(io.output, "[ 7 ]\n");
}

#[test]
fn nonterminating_loop_exhausts_the_budget() {
    let (_, result, _) = run_with("0 loop { false } { }", 100, Vec::new());
    assert_eq!(result, Err(Error::OutOfFuel));
}

#[test]
fn times_with_zero_count_runs_until_the_budget_ends() {
    // the count is decremented after each run and tested against zero, so a
    // zero count never reaches it again
    let (_, result, _) = run_with("0 times { 1 }", 50, Vec::new());
    assert_eq!(result, Err(Error::OutOfFuel));
}

#[test]
fn control_flow_needs_its_branches() {
    assert_eq!(final_error("[ 1 ] each"), Error::MalformedControlFlow);
    assert_eq!(final_error("1 times"), Error::MalformedControlFlow);
    assert_eq!(final_error("5 loop"), Error::MalformedControlFlow);
}

#[test]
fn binding_needs_a_symbol() {
    assert_eq!(final_error("1 2 :="), Error::InvalidBinding);
    assert_eq!(final_error("1 { } fun"), Error::InvalidBinding);
}

#[test]
fn mixed_arithmetic_is_a_type_error() {
    assert_eq!(final_error("1 true +"), Error::TypeMismatch);
    assert_eq!(final_error("\" a \" 1 +"), Error::TypeMismatch);
}

#[test]
fn list_addition_concatenates() {
    assert_eq!(final_stack("[ 1 ] [ 2 3 ] +"), "[[ 1 2 3 ]]");
}

#[test]
fn same_block_twice_from_equal_states_agrees() {
    let program = "x 3 := [ 1 2 ] map { x * }";
    let first = final_stack(program);
    let second = final_stack(program);
    assert_eq!(first, second);
    assert_eq!(first, "[[ 3 6 ]]");
}

#[test]
fn repl_style_session_keeps_state() {
    let block1 = Value::Block(tokenize("y 5 :="));
    let block2 = Value::Block(tokenize("y y +"));
    let mut stack = Stack::new();
    let mut variables = Variables::new();
    let mut functions = Functions::new();
    let mut io = Effects { input: Vec::new(), output: String::new() };
    block1.exec(&mut stack, &mut variables, &mut functions, &mut io, 1000).unwrap();
    block2.exec(&mut stack, &mut variables, &mut functions, &mut io, 1000).unwrap();
    assert_eq!(stack_text(&stack), "[10]");
}
