use vega::env::Env;
use vega::host::{Error, ErrorKind};
use vega::interpreter::Interpreter;
use vega::pattern::Pattern;
use vega::stdlib::{NativeFunction, Primitive, Stdlib};
use vega::value::Value;

fn s(text: &str) -> String {
    text.to_string()
}

fn texts(items: &[&str]) -> Vec<String> {
    items.iter().map(|t| t.to_string()).collect()
}

#[test]
fn scalar_values_print_plainly() {
    assert_eq!(Value::Nil.to_string(&vec![]), "nil");
    assert_eq!(Value::Bool(true).to_string(&vec![]), "true");
    assert_eq!(Value::Bool(false).to_string(&vec![]), "false");
    assert_eq!(Value::String(s("a b")).to_string(&vec![]), "a b");
    assert_eq!(Value::Number(0).to_string(&texts(&["5"])), "5");
    assert_eq!(Value::NativeFunction(NativeFunction::Pure(Primitive::Add)).to_string(&vec![]), "");
}

#[test]
fn array_prints_in_brackets_with_single_spaces() {
    let value = Value::Array(vec![
        Value::Number(1),
        Value::String(s("x")),
        Value::Array(vec![Value::Number(2), Value::Nil]),
        Value::Number(3),
    ]);
    assert_eq!(value.numbers(), vec![1, 2, 3]);
    assert_eq!(value.to_string(&texts(&["1", "2.5", "3"])), "[1 x [2.5 nil] 3]");
    assert_eq!(Value::Array(vec![]).to_string(&vec![]), "[]");
    assert_eq!(Value::Array(vec![Value::Nil]).to_string(&vec![]), "[nil]");
}

#[test]
fn object_prints_its_fields_with_a_trailing_bar() {
    let value = Value::Object {
        class: s("Point"),
        attrs: vec![(s("x"), Value::Number(10)), (s("y"), Value::Number(20))],
    };
    assert_eq!(value.numbers(), vec![10, 20]);
    assert_eq!(value.to_string(&texts(&["1", "2"])), "Point -> x=1 | y=2 | ");
    let empty = Value::Object { class: s("E"), attrs: vec![] };
    assert_eq!(empty.to_string(&vec![]), "E -> ");
}

#[test]
fn as_number_gives_the_bits() {
    assert_eq!(Value::Number(2.5f32.to_bits()).as_number(), 2.5f32.to_bits());
}

#[test]
fn clone_is_equal() {
    let value = Value::Array(vec![
        Value::Number(1),
        Value::Object { class: s("P"), attrs: vec![(s("x"), Value::String(s("v")))] },
    ]);
    assert_eq!(value.clone(), value);
}

#[test]
fn lookup_walks_to_the_first_hit() {
    let mut env = Env::new();
    env.bind(0, "x", Value::Number(1));
    env.bind(0, "y", Value::Number(2));
    let child = env.child(0);
    assert_eq!(child, 1);
    env.bind(child, "x", Value::Number(10));
    assert_eq!(env.get(child, "x"), Some(Value::Number(10)));
    assert_eq!(env.get(child, "y"), Some(Value::Number(2)));
    assert_eq!(env.get(0, "x"), Some(Value::Number(1)));
    assert_eq!(env.get(child, "z"), None);
    assert_eq!(env.get(7, "x"), None);
}

#[test]
fn assignment_overwrites_the_first_hit_or_fails() {
    let mut env = Env::new();
    env.bind(0, "x", Value::Number(1));
    let child = env.child(0);
    assert!(env.set(child, "x", Value::Number(5)));
    assert_eq!(env.get(0, "x"), Some(Value::Number(5)));
    assert!(!env.declared(child, "x"));
    assert!(!env.set(child, "missing", Value::Nil));
    assert_eq!(env.get(child, "missing"), None);
    env.bind(child, "x", Value::Number(7));
    assert!(env.set(child, "x", Value::Number(8)));
    assert_eq!(env.get(child, "x"), Some(Value::Number(8)));
    assert_eq!(env.get(0, "x"), Some(Value::Number(5)));
}

#[test]
fn declaring_twice_in_one_frame_fails() {
    let mut env = Env::new();
    assert!(env.declare(0, "x", Value::Number(1)));
    assert!(!env.declare(0, "x", Value::Number(2)));
    assert_eq!(env.get(0, "x"), Some(Value::Number(1)));
    let child = env.child(0);
    assert!(env.declare(child, "x", Value::Number(3)));
    assert_eq!(env.get(child, "x"), Some(Value::Number(3)));
}

#[test]
fn structures_are_found_through_the_parents() {
    let mut env = Env::new();
    env.declare_struct(0, "Point", vec![s("x"), s("y")]);
    let child = env.child(0);
    assert_eq!(env.class_exists(child, "Point"), Some(vec![s("x"), s("y")]));
    assert_eq!(env.class_exists(child, "Line"), None);
    env.declare_struct(child, "Point", vec![s("a")]);
    assert_eq!(env.class_exists(child, "Point"), Some(vec![s("a")]));
    assert_eq!(env.class_exists(0, "Point"), Some(vec![s("x"), s("y")]));
}

#[test]
fn builtins_are_installed_under_their_names() {
    let table = Stdlib::builtins();
    let names: Vec<&str> = table.iter().map(|e| e.0.as_str()).collect();
    assert_eq!(names, vec![
        "+", "-", "*", "/", "^", ">", "<", ">=", "<=", "abs", "&&", "||", "==", "!=", "not",
        "print", "read", "typeof", "get", "len", "concat", "range", "parse"
    ]);
    assert_eq!(table[0].1, Value::NativeFunction(NativeFunction::Pure(Primitive::Add)));
    assert_eq!(Stdlib::math_symbol().len(), 10);
    assert_eq!(Stdlib::logical_symbol().len(), 5);
    assert_eq!(Stdlib::io_functions().len(), 2);
    assert_eq!(Stdlib::language_functions().len(), 2);
    assert_eq!(Stdlib::array_functions().len(), 3);
    assert_eq!(Stdlib::string_functions().len(), 1);
}

#[test]
fn new_interpreter_binds_the_builtins_in_the_root_frame() {
    let interpreter = Interpreter::new();
    assert_eq!(interpreter.env.frames.len(), 1);
    assert_eq!(
        interpreter.env.get(0, "print"),
        Some(Value::NativeFunction(NativeFunction::Pure(Primitive::Print)))
    );
    assert_eq!(
        interpreter.env.get(0, "parse"),
        Some(Value::NativeFunction(NativeFunction::Pure(Primitive::Parse)))
    );
    assert_eq!(interpreter.env.get(0, "nothing"), None);
}

#[test]
fn number_matching_is_nil() {
    assert_eq!(Pattern::handle_number_matching(), Value::Nil);
}

#[test]
fn errors_have_a_message_that_names_the_subject() {
    let message = |kind, subject: &str| Error { kind, subject: s(subject) }.message();
    assert_eq!(message(ErrorKind::Syntax, ""), "Invalid syntax");
    assert_eq!(message(ErrorKind::UndefinedSymbol, "foo"), "Undefined symbol: foo");
    assert_eq!(message(ErrorKind::VariableNotFound, "x"), "Variable x not found");
    assert_eq!(
        message(ErrorKind::AlreadyDefined, "x"),
        "Variable x already defined ! Use set to modify its value."
    );
    assert_eq!(message(ErrorKind::UnknownAnnotation, ":nope"), "Unknown annotation :nope");
    assert_eq!(message(ErrorKind::TestFailed, "area"), "Function area did not pass the test !");
    assert_eq!(message(ErrorKind::NonBoolCondition, ""), "Non boolean condition found.");
    assert_eq!(
        message(ErrorKind::TypeMismatch, "+"),
        "< + > was given operands of the wrong kind !"
    );
    assert_eq!(message(ErrorKind::MalformedNumber, "1.2.3"), "Malformed number 1.2.3");
    assert_eq!(
        message(ErrorKind::HostFault, ""),
        "The host gave an answer that was not asked for"
    );
}
