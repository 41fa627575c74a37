use vega::evaluate;
use vega::host::{Action, BinaryOp, Error, ErrorKind, Relation, Reply, Request};
use vega::stdlib::{NativeFunction, Primitive};
use vega::value::Value;

/// Carries out one request as a host does, with 32-bit floats; printed lines
/// go to `printed` and lines to read come from `input`.
fn perform(request: Request, printed: &mut Vec<String>, input: &mut Vec<String>) -> Reply {
    match request {
        Request::Decode(text) => match text.parse::<f32>() {
            Ok(f) => Reply::Number(f.to_bits()),
            Err(_) => Reply::Absent,
        },
        Request::Format(numbers) => {
            Reply::Texts(numbers.iter().map(|n| f32::from_bits(*n).to_string()).collect())
        }
        Request::Binary(op, a, b) => {
            let (a, b) = (f32::from_bits(a), f32::from_bits(b));
            let r = match op {
                BinaryOp::Add => a + b,
                BinaryOp::Sub => a - b,
                BinaryOp::Mul => a * b,
                BinaryOp::Div => a / b,
                BinaryOp::Pow => a.powf(b),
            };
            Reply::Number(r.to_bits())
        }
        Request::Abs(a) => Reply::Number(f32::from_bits(a).abs().to_bits()),
        Request::Relate(relation, a, b) => {
            let (a, b) = (f32::from_bits(a), f32::from_bits(b));
            Reply::Bool(match relation {
                Relation::Greater => a > b,
                Relation::Less => a < b,
                Relation::GreaterEq => a >= b,
                Relation::LessEq => a <= b,
                Relation::Equal => a == b,
                Relation::NotEqual => a != b,
                Relation::Near => (a - b).abs() < 0.1,
            })
        }
        Request::Truncate(numbers) => {
            Reply::Integers(numbers.iter().map(|n| f32::from_bits(*n) as i64).collect())
        }
        Request::Widen(integers) => {
            Reply::Numbers(integers.iter().map(|i| (*i as f32).to_bits()).collect())
        }
        Request::Print(line) => {
            printed.push(line);
            Reply::Nothing
        }
        Request::Read => {
            if input.is_empty() {
                Reply::Text(String::new())
            } else {
                Reply::Text(input.remove(0))
            }
        }
    }
}

/// Runs a program to its end and returns how it ended and what it printed.
fn run_with(source: &str, lines: &[&str]) -> (Result<Value, Error>, Vec<String>) {
    let mut input: Vec<String> = lines.iter().map(|l| l.to_string()).collect();
    let mut printed = Vec::new();
    let mut interpreter = evaluate(source);
    let mut reply = Reply::Nothing;
    for _ in 0..1_000_000 {
        match interpreter.step(reply) {
            Action::Continue => reply = Reply::Nothing,
            Action::Request(request) => reply = perform(request, &mut printed, &mut input),
            Action::Finished(value) => return (Ok(value), printed),
            Action::Failed(error) => return (Err(error), printed),
        }
    }
    panic!("the program did not come to an end");
}

fn run(source: &str) -> (Result<Value, Error>, Vec<String>) {
    run_with(source, &[])
}

fn printed(source: &str) -> Vec<String> {
    let (result, lines) = run(source);
    assert!(result.is_ok(), "failed: {:?}", result);
    lines
}

fn number(f: f32) -> Value {
    Value::Number(f.to_bits())
}

fn failure(source: &str) -> ErrorKind {
    match run(source).0 {
        Err(e) => e.kind,
        Ok(v) => panic!("expected a failure, got {:?}", v),
    }
}

#[test]
fn var_then_print() {
    assert_eq!(printed("(var a 5) (print a)"), vec!["5"]);
}

#[test]
fn let_prints_array_of_powers() {
    assert_eq!(printed("(let ((a 5)) (print [a (* a a) (* a a a)]))"), vec!["[5 25 125]"]);
}

#[test]
fn factorial_recursion() {
    assert_eq!(
        printed("(fn fact (n) (if (== n 1) 1 (* n (fact (- n 1))))) (print (fact 5))"),
        vec!["120"]
    );
}

#[test]
fn inline_test_passes_and_function_is_usable() {
    assert_eq!(printed("(fn area (w h) (:test (4 5) 20) (* w h)) (print (area 3 4))"), vec!["12"]);
}

#[test]
fn inline_test_mismatch_is_fatal() {
    let (result, lines) = run("(fn area (w h) (:test (4 5) 21) (* w h)) (print (area 3 4))");
    let error = result.unwrap_err();
    assert_eq!(error.kind, ErrorKind::TestFailed);
    assert_eq!(error.subject, "area");
    assert!(lines.is_empty());
}

#[test]
fn struct_fields_by_name() {
    assert_eq!(
        printed("(struct Point (x y)) (Point p (1 2)) (print (get p \"x\")) (print (get p \"y\"))"),
        vec!["1", "2"]
    );
}

#[test]
fn while_counts_up() {
    assert_eq!(
        printed("(var i 0) (while (< i 3) (do (print i) (set i (+ i 1))))"),
        vec!["0", "1", "2"]
    );
}

#[test]
fn number_atom_evaluates_to_itself() {
    assert_eq!(run("3.14").0, Ok(number(3.14)));
    assert_eq!(run("5").0, Ok(number(5.0)));
}

#[test]
fn string_atom_keeps_its_text_without_escapes() {
    assert_eq!(run("\"a\\nb\"").0, Ok(Value::String("a\\nb".to_string())));
}

#[test]
fn undefined_head_is_fatal() {
    let error = run("(nothing 1 2)").0.unwrap_err();
    assert_eq!(error.kind, ErrorKind::UndefinedSymbol);
    assert_eq!(error.subject, "nothing");
    assert_eq!(failure("(var a 1) (var a 2)"), ErrorKind::AlreadyDefined);
}

#[test]
fn lexical_scope_ignores_bindings_at_the_call_site() {
    assert_eq!(printed("(var x 1) (fn f (d) x) (let ((x 2)) (print (f 0)))"), vec!["1"]);
}

#[test]
fn let_shadows_and_outer_binding_returns() {
    assert_eq!(printed("(var x 1) (let ((x 2)) (print x)) (print x)"), vec!["2", "1"]);
}

#[test]
fn let_evaluates_values_in_the_enclosing_frame() {
    assert_eq!(printed("(var x 1) (let ((x 2) (y x)) (print y))"), vec!["1"]);
}

#[test]
fn array_literal_is_evaluated_left_to_right() {
    assert_eq!(printed("(print [1 2 3])"), vec!["[1 2 3]"]);
    assert_eq!(printed("(var i 0) (print [(set i (+ i 1)) i (set i (+ i 1)) i])"), vec![
        "[nil 1 nil 2]"
    ]);
    assert_eq!(run("[]").0, Ok(Value::Array(vec![])));
}

#[test]
fn for_runs_once_for_each_row_of_the_shorter_range() {
    let lines = printed(
        "(var n 0) (for (a b) ((range 0 5) (range 10 13)) (do (print a b) (set n (+ n 1)))) (print n)",
    );
    assert_eq!(lines, vec!["0 10", "1 11", "2 12", "3"]);
}

#[test]
fn for_over_an_empty_range_never_runs() {
    assert_eq!(printed("(for (a) ((range 3 3)) (print a)) (print 7)"), vec!["7"]);
}

#[test]
fn closure_sees_let_bindings_after_the_let_has_returned() {
    assert_eq!(
        printed("(var h (let ((a 5)) (fn g (x) (+ x a)) g)) (print (h 1))"),
        vec!["6"]
    );
}

#[test]
fn inline_test_on_strings_and_booleans() {
    assert_eq!(printed("(fn same (x) (:test (\"a\") \"a\") x) (print (same 3))"), vec!["3"]);
    assert_eq!(failure("(fn same (x) (:test (\"a\") \"b\") x)"), ErrorKind::TestFailed);
    assert_eq!(failure("(fn same (x) (:test (1) \"a\") x)"), ErrorKind::TestFailed);
    assert_eq!(printed("(fn pos (x) (:test (1) (== 1 1)) (> x 0)) (print 1)"), vec!["1"]);
    assert_eq!(failure("(fn pos (x) (:test (1) (== 1 2)) (> x 0))"), ErrorKind::TestFailed);
}

#[test]
fn inline_test_on_numbers_allows_a_tenth() {
    assert_eq!(printed("(fn half (x) (:test (1) 0.55) (/ x 2)) (print 1)"), vec!["1"]);
    assert_eq!(failure("(fn half (x) (:test (1) 0.7) (/ x 2))"), ErrorKind::TestFailed);
}

#[test]
fn several_inline_tests_run_in_order() {
    assert_eq!(
        failure("(fn twice (x) (:test (1) 2) (:test (2) 5) (* x 2))"),
        ErrorKind::TestFailed
    );
    assert_eq!(
        printed("(fn twice (x) (:test (1) 2) (:test (2) 4) (* x 2)) (print (twice 4))"),
        vec!["8"]
    );
}

#[test]
fn require_is_recorded_but_not_enforced() {
    assert_eq!(printed("(fn f (x) (:require (> x 0)) x) (print (f (- 0 1)))"), vec!["-1"]);
}

#[test]
fn unknown_annotation_is_fatal() {
    let error = run("(fn f (x) (:nope 1) x)").0.unwrap_err();
    assert_eq!(error.kind, ErrorKind::UnknownAnnotation);
    assert_eq!(error.subject, ":nope");
}

#[test]
fn malformed_forms_are_fatal() {
    assert_eq!(failure("((1 2) 3)"), ErrorKind::Syntax);
    assert_eq!(failure("(fn f)"), ErrorKind::Syntax);
    assert_eq!(failure("(fn f (x))"), ErrorKind::Syntax);
    assert_eq!(failure("(let ((a 1 2)) a)"), ErrorKind::Syntax);
    assert_eq!(failure("(while (== 1 1))"), ErrorKind::Syntax);
}

#[test]
fn if_chooses_by_boolean_and_is_nil_otherwise() {
    assert_eq!(printed("(print (if (< 1 2) 10 20))"), vec!["10"]);
    assert_eq!(printed("(print (if (> 1 2) 10 20))"), vec!["20"]);
    assert_eq!(printed("(print (if 1 10 20))"), vec!["nil"]);
}

#[test]
fn while_with_a_condition_that_is_no_boolean_is_fatal() {
    assert_eq!(failure("(while 1 2)"), ErrorKind::NonBoolCondition);
}

#[test]
fn while_gives_the_last_body_value() {
    assert_eq!(
        printed("(var i 0) (print (while (< i 3) (do (set i (+ i 1)) i)))"),
        vec!["3"]
    );
    assert_eq!(printed("(print (while (< 1 0) 5))"), vec!["nil"]);
}

#[test]
fn set_needs_an_existing_binding() {
    let error = run("(set q 1)").0.unwrap_err();
    assert_eq!(error.kind, ErrorKind::VariableNotFound);
    assert_eq!(error.subject, "q");
}

#[test]
fn set_reaches_through_the_parents() {
    assert_eq!(printed("(var x 1) (let ((y 2)) (set x (+ x y))) (print x)"), vec!["3"]);
}

#[test]
fn set_replaces_a_field_of_an_object() {
    assert_eq!(
        printed("(struct P (x y)) (P p (1 2)) (set p \"x\" 10) (print p)"),
        vec!["P -> x=10 | y=2 | "]
    );
    assert_eq!(
        printed("(struct P (x y)) (P p (1 2)) (set p \"z\" 10) (print p) (print (get p \"z\"))"),
        vec!["P -> x=1 | y=2 | ", "nil"]
    );
}

#[test]
fn var_gives_its_value_and_cannot_be_repeated() {
    assert_eq!(printed("(print (var a 5))"), vec!["5"]);
    let error = run("(var a 1) (var a 2)").0.unwrap_err();
    assert_eq!(error.kind, ErrorKind::AlreadyDefined);
    assert_eq!(error.subject, "a");
    assert_eq!(printed("(var a 1) (let ((b 0)) (var a 2) (print a)) (print a)"), vec!["2", "1"]);
}

#[test]
fn wrong_arity_is_no_error() {
    assert_eq!(printed("(fn f (a b) b) (print (f 1))"), vec!["nil"]);
    assert_eq!(printed("(fn f (a b) b) (print (f 1 2 3))"), vec!["2"]);
}

#[test]
fn do_gives_the_last_value() {
    assert_eq!(run("(do 1 2 3)").0, Ok(number(3.0)));
    assert_eq!(run("").0, Ok(Value::Nil));
    assert_eq!(run("()").0, Ok(Value::Nil));
    assert_eq!(run("(7)").0, Ok(number(7.0)));
}

#[test]
fn unbound_symbol_is_nil() {
    assert_eq!(run("nothing").0, Ok(Value::Nil));
}

#[test]
fn arithmetic() {
    assert_eq!(printed("(print (+ 1 2) (- 5 7) (* 3 4) (/ 1 4) (^ 2 10))"), vec![
        "3 -2 12 0.25 1024"
    ]);
    assert_eq!(printed("(print (* 2 3 4) (* 5 5 5) (* 2 3 \"x\" 4))"), vec!["24 125 24"]);
    assert_eq!(printed("(print (abs (- 0 5)) (abs 3))"), vec!["5 3"]);
    assert_eq!(printed("(print 3.14)"), vec!["3.14"]);
}

#[test]
fn arguments_after_the_second_are_ignored() {
    assert_eq!(printed("(print (+ 1 2 3 4) (- 10 1 2) (/ 8 2 2) (^ 2 3 4))"), vec!["3 9 4 8"]);
    assert_eq!(printed("(print (+ 1 2 \"x\") (/ 8 2 nothing) (< 1 2 \"x\"))"), vec!["3 4 true"]);
}

#[test]
fn arithmetic_on_other_kinds_is_fatal() {
    assert_eq!(failure("(* 1 \"a\")"), ErrorKind::TypeMismatch);
    assert_eq!(failure("(* \"a\" 1 2)"), ErrorKind::TypeMismatch);
    assert_eq!(failure("(/ 1)"), ErrorKind::TypeMismatch);
    assert_eq!(failure("(- nothing 1)"), ErrorKind::TypeMismatch);
    assert_eq!(failure("(^ 2 (< 1 2))"), ErrorKind::TypeMismatch);
    let error = run("(+ 1 \"a\")").0.unwrap_err();
    assert_eq!(error.kind, ErrorKind::TypeMismatch);
    assert_eq!(error.subject, "+");
    assert_eq!(failure("(+ 1)"), ErrorKind::TypeMismatch);
    assert_eq!(failure("(< 1 \"a\")"), ErrorKind::TypeMismatch);
    assert_eq!(failure("(abs \"a\")"), ErrorKind::TypeMismatch);
    assert_eq!(failure("(not 1)"), ErrorKind::TypeMismatch);
    assert_eq!(failure("(&& 1 2)"), ErrorKind::TypeMismatch);
}

#[test]
fn comparison_and_logic() {
    assert_eq!(printed("(print (> 2 1) (< 2 1) (>= 2 2) (<= 3 2))"), vec![
        "true false true false"
    ]);
    assert_eq!(
        printed("(print (&& (< 1 2) (< 2 3)) (|| (< 2 1) (< 3 2)) (not (< 1 2)))"),
        vec!["true false false"]
    );
}

#[test]
fn equality_needs_two_of_a_kind() {
    assert_eq!(
        printed("(print (== 1 1) (!= 1 1) (== \"a\" \"a\") (!= \"a\" \"b\") (== (< 1 2) (< 2 3)))"),
        vec!["true false true true true"]
    );
    assert_eq!(failure("(== 1 \"a\")"), ErrorKind::TypeMismatch);
    assert_eq!(failure("(!= 1)"), ErrorKind::TypeMismatch);
}

#[test]
fn print_joins_with_single_spaces() {
    assert_eq!(printed("(print 1 \"a\" [2 [3 4]] (< 1 2))"), vec!["1 a [2 [3 4]] true"]);
    assert_eq!(printed("(print)"), vec![""]);
    assert_eq!(run("(print 1)").0, Ok(Value::Nil));
}

#[test]
fn read_gives_a_line_without_its_end() {
    let (result, lines) = run_with("(print (read)) (print (read))", &["hello\n", "second\r\n"]);
    assert_eq!(result, Ok(Value::Nil));
    assert_eq!(lines, vec!["hello", "second"]);
}

#[test]
fn typeof_names_the_kind() {
    assert_eq!(
        printed("(fn f (x) x) (print (typeof 1) (typeof \"s\") (typeof [1]) (typeof f) (typeof (< 1 2)))"),
        vec!["Number String Array Function Bool"]
    );
    assert_eq!(printed("(print (typeof print) (typeof +))"), vec!["Function Function"]);
    assert_eq!(failure("(typeof nothing)"), ErrorKind::TypeMismatch);
    assert_eq!(failure("(struct P (x)) (P p (1)) (typeof p)"), ErrorKind::TypeMismatch);
}

#[test]
fn symbol_bound_to_a_builtin_is_that_builtin() {
    let (result, lines) = run("print");
    assert_eq!(result, Ok(Value::NativeFunction(NativeFunction::Pure(Primitive::Print))));
    assert!(lines.is_empty());
    assert_eq!(printed("(var plus +) (print (plus 1 2))"), vec!["3"]);
}

#[test]
fn single_item_form_calls_a_builtin_without_arguments() {
    assert_eq!(printed("(print)"), vec![""]);
    assert_eq!(run_with("(read)", &["line\n"]).0, Ok(Value::String("line".to_string())));
    assert_eq!(failure("(+)"), ErrorKind::TypeMismatch);
}

#[test]
fn single_item_form_of_a_user_function_is_the_function() {
    let (result, lines) = run("(fn f (x) (print x)) (f)");
    assert!(lines.is_empty());
    match result {
        Ok(Value::Function { params, func_env, .. }) => {
            assert_eq!(params, vec!["x".to_string()]);
            assert_eq!(func_env, 0);
        }
        other => panic!("expected a function, got {:?}", other),
    }
}

#[test]
fn get_reads_items_and_fields() {
    assert_eq!(
        printed("(print (get [10 20 30] 1) (get [10 20 30] 3) (get [10 20 30] 1.9))"),
        vec!["20 nil 20"]
    );
    assert_eq!(printed("(print (get [10 20 30] (- 0 1)))"), vec!["nil"]);
    assert_eq!(printed("(print (get \"hello\" 1) (get \"hello\" 9))"), vec!["e nil"]);
    assert_eq!(failure("(get [1 2] \"a\")"), ErrorKind::TypeMismatch);
    assert_eq!(failure("(get 1 1)"), ErrorKind::TypeMismatch);
}

#[test]
fn get_returns_each_item_of_an_array_by_its_position() {
    assert_eq!(
        printed("(var a [5 6 7]) (for (i) ((range 0 (len a))) (print (get a i)))"),
        vec!["5", "6", "7"]
    );
}

#[test]
fn len_counts_items_and_characters() {
    assert_eq!(printed("(print (len [1 2 3]) (len []) (len \"h\u{e9}llo\"))"), vec!["3 0 5"]);
    assert_eq!(failure("(len 1)"), ErrorKind::TypeMismatch);
}

#[test]
fn concat_needs_a_string_first() {
    assert_eq!(printed("(print (concat \"a\" 1 \"b\" [2 3]))"), vec!["a1b[2 3]"]);
    assert_eq!(printed("(print (concat 1 \"a\"))"), vec!["nil"]);
    assert_eq!(run("(concat \"x=\" 1.5)").0, Ok(Value::String("x=1.5".to_string())));
}

#[test]
fn range_is_half_open() {
    assert_eq!(printed("(print (range 1 4) (range 4 1) (range 0 0))"), vec!["[1 2 3] [] []"]);
    assert_eq!(failure("(range 1 \"a\")"), ErrorKind::TypeMismatch);
}

#[test]
fn parse_reads_numbers() {
    assert_eq!(printed("(print (+ (parse \"2.5\") 1) (parse \"abc\") (parse 1))"), vec![
        "3.5 nil nil"
    ]);
}

#[test]
fn parse_undoes_printing_of_a_number() {
    assert_eq!(printed("(print (== (parse (concat \"\" 3.14)) 3.14))"), vec!["true"]);
}

#[test]
fn malformed_numeral_is_fatal_before_the_first_step() {
    let (result, lines) = run("(print 1) (if (< 1 2) 2 1.2.3)");
    let error = result.unwrap_err();
    assert_eq!(error.kind, ErrorKind::MalformedNumber);
    assert_eq!(error.subject, "1.2.3");
    assert!(lines.is_empty());
    let error = run("(print 7) (var a .)").0.unwrap_err();
    assert_eq!(error.kind, ErrorKind::MalformedNumber);
    assert_eq!(error.subject, ".");
    let mut interpreter = evaluate("(print 1..2)");
    match interpreter.step(Reply::Nothing) {
        Action::Failed(e) => assert_eq!(e.subject, "1..2"),
        other => panic!("expected a failure, got {:?}", other),
    }
}

#[test]
fn numeral_with_one_dot_and_a_digit_is_a_number() {
    assert_eq!(printed("(print 5. .5 3.14 007)"), vec!["5 0.5 3.14 7"]);
}

#[test]
fn a_number_that_the_host_does_not_know_is_fatal() {
    let mut interpreter = evaluate("5");
    assert_eq!(interpreter.step(Reply::Nothing), Action::Continue);
    assert_eq!(interpreter.step(Reply::Nothing), Action::Request(Request::Decode("5".to_string())));
    match interpreter.step(Reply::Absent) {
        Action::Failed(e) => {
            assert_eq!(e.kind, ErrorKind::MalformedNumber);
            assert_eq!(e.subject, "5");
        }
        other => panic!("expected a failure, got {:?}", other),
    }
}

#[test]
fn struct_construction_binds_fields_by_position() {
    assert_eq!(printed("(struct P (x y)) (P p (1 2 3)) (print p)"), vec!["P -> x=1 | y=2 | "]);
    assert_eq!(printed("(struct P (x y)) (P p (1)) (print p)"), vec!["P -> x=1 | "]);
    assert_eq!(
        printed("(struct P (x y)) (let ((a 1)) (P p (a 2)) (print (get p \"y\")))"),
        vec!["2"]
    );
}

#[test]
fn a_reply_of_the_wrong_shape_is_a_fault_of_the_host() {
    let mut interpreter = evaluate("5");
    assert_eq!(interpreter.step(Reply::Nothing), Action::Continue);
    assert_eq!(interpreter.step(Reply::Nothing), Action::Request(Request::Decode("5".to_string())));
    match interpreter.step(Reply::Bool(true)) {
        Action::Failed(e) => assert_eq!(e.kind, ErrorKind::HostFault),
        other => panic!("expected a failure, got {:?}", other),
    }
    match interpreter.step(Reply::Nothing) {
        Action::Failed(e) => assert_eq!(e.kind, ErrorKind::HostFault),
        other => panic!("expected a failure, got {:?}", other),
    }
}

#[test]
fn number_atom_asks_the_host_once() {
    let mut interpreter = evaluate("2.5");
    assert_eq!(interpreter.step(Reply::Nothing), Action::Continue);
    assert_eq!(interpreter.step(Reply::Nothing), Action::Request(Request::Decode("2.5".to_string())));
    assert_eq!(interpreter.step(Reply::Number(7)), Action::Continue);
    assert_eq!(interpreter.step(Reply::Nothing), Action::Continue);
    assert_eq!(interpreter.step(Reply::Nothing), Action::Finished(Value::Number(7)));
    assert_eq!(interpreter.step(Reply::Nothing), Action::Finished(Value::Number(7)));
}

#[test]
fn requests_carry_the_operands() {
    let mut interpreter = evaluate("(^ 2 3)");
    let mut seen = Vec::new();
    let mut printed = Vec::new();
    let mut input = Vec::new();
    let mut reply = Reply::Nothing;
    loop {
        match interpreter.step(reply) {
            Action::Continue => reply = Reply::Nothing,
            Action::Request(request) => {
                if let Request::Binary(op, a, b) = &request {
                    seen.push((*op, f32::from_bits(*a), f32::from_bits(*b)));
                }
                reply = perform(request, &mut printed, &mut input);
            }
            Action::Finished(value) => {
                assert_eq!(value, number(8.0));
                break;
            }
            Action::Failed(error) => panic!("failed: {:?}", error),
        }
    }
    assert_eq!(seen, vec![(BinaryOp::Pow, 2.0, 3.0)]);
}

#[test]
fn range_bounds_are_brought_into_32_bits() {
    assert_eq!(
        printed("(print (len (range (- 0 3000000000) (- 0 2147483008))))"),
        vec!["640"]
    );
    assert_eq!(printed("(print (range 1.9 4.2))"), vec!["[1 2 3]"]);
}

#[test]
fn set_on_an_object_without_a_field_name_assigns() {
    assert_eq!(printed("(struct P (x)) (P p (1)) (set p 5) (print p)"), vec!["5"]);
    assert_eq!(printed("(struct P (x)) (P p (1)) (set p \"x\") (print p)"), vec!["x"]);
    assert_eq!(printed("(var s 1) (set s \"a\" 2) (print s)"), vec!["a"]);
    assert_eq!(failure("(var s 1) (set s)"), ErrorKind::Syntax);
    assert_eq!(run("(var s 1) (set 5 2)").0, Ok(Value::Nil));
}

#[test]
fn the_value_of_a_field_is_evaluated_after_the_object_is_read() {
    assert_eq!(
        printed("(struct P (x y)) (P p (1 2)) (set p \"x\" (do (set p \"y\" 9) 5)) (print p)"),
        vec!["P -> x=5 | y=2 | "]
    );
}

#[test]
fn forms_without_their_parts_do_nothing() {
    assert_eq!(run("(var 5 3)").0, Ok(Value::Nil));
    assert_eq!(run("(var x)").0, Ok(Value::Nil));
    assert_eq!(run("(struct 5 (a))").0, Ok(Value::Nil));
    assert_eq!(run("(struct P x)").0, Ok(Value::Nil));
    assert_eq!(failure("(struct P)"), ErrorKind::Syntax);
    assert_eq!(failure("(if (< 1 2))"), ErrorKind::Syntax);
    assert_eq!(failure("(if (< 2 1) 1)"), ErrorKind::Syntax);
    assert_eq!(printed("(let x (print 1))"), vec!["1"]);
    assert_eq!(printed("(let (5 (a 1) (7 2)) (print a))"), vec!["1"]);
}

#[test]
fn for_needs_a_body_and_a_range() {
    assert_eq!(failure("(for (a) ((range 0 2)))"), ErrorKind::Syntax);
    assert_eq!(failure("(for (a) () (print a))"), ErrorKind::Syntax);
    assert_eq!(failure("(for (a) (5) (print a))"), ErrorKind::Syntax);
    assert_eq!(failure("(for (a b) ((range 0 2)) (print a))"), ErrorKind::Syntax);
    assert_eq!(printed("(for (a) ([1 \"x\" 2]) (print a))"), vec!["1", "2"]);
}

#[test]
fn function_definition_gives_nil_and_can_be_replaced() {
    assert_eq!(run("(fn f (x) x)").0, Ok(Value::Nil));
    assert_eq!(printed("(fn f (x) 1) (fn f (x) 2) (print (f 0))"), vec!["2"]);
}

#[test]
fn functions_are_first_class() {
    assert_eq!(
        printed("(fn twice (g x) (g (g x))) (fn inc (n) (+ n 1)) (print (twice inc 5))"),
        vec!["7"]
    );
}

#[test]
fn inline_test_arguments_are_evaluated_in_the_frame_of_the_definition() {
    assert_eq!(printed("(var k 3) (fn add (x) (:test (k) 6) (+ x k)) (print (add 1))"), vec!["4"]);
}

#[test]
fn a_name_declared_later_in_the_captured_frame_is_seen_by_the_function() {
    assert_eq!(
        printed("(var y 1) (let ((d 0)) (fn f (a) y) (print (f 0)) (var y 2) (print (f 0)))"),
        vec!["1", "2"]
    );
}

#[test]
fn inline_test_runs_the_body_when_the_function_is_defined() {
    assert_eq!(
        printed("(fn show (x) (:test (1) 1) (do (print x) x)) (print 9)"),
        vec!["1", "9"]
    );
}

#[test]
fn for_passes_over_items_that_are_no_numbers() {
    assert_eq!(
        printed("(var n 0) (for (a b) ([1 \"x\" 2] [1 2 3]) (set n (+ n 1))) (print n)"),
        vec!["2"]
    );
}

#[test]
fn a_word_with_a_sign_is_no_number() {
    assert_eq!(run("-5").0, Ok(Value::Nil));
}
