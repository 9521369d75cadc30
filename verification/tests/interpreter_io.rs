use lib::interpreter::io::start;
use lib::interpreter::io::step;
use lib::interpreter::io::trim_line;
use lib::interpreter::io::Action;
use lib::interpreter::value::BuiltinOp;
use lib::interpreter::value::IoKind;
use lib::interpreter::value::Value;

const FUEL: u64 = 1000;

/// Runs an action to its end, reading lines from `input`; the outputs in
/// order, then the final value's text or the error message.
fn run(io: Value, input: &[&str]) -> (Vec<String>, Result<String, String>) {
    let mut m = start(io);
    let mut outputs = Vec::new();
    let mut lines = input.iter();
    let mut pending: Option<String> = None;
    for _ in 0..1000 {
        let (next, action) = step(m, pending.take(), FUEL);
        m = next;
        match action {
            Action::Print(s) => outputs.push(format!("print:{s}")),
            Action::PrintLine(s) => outputs.push(format!("line:{s}")),
            Action::ReadLine => pending = lines.next().map(|l| l.to_string()),
            Action::Continue => {},
            Action::Finished(v) => return (outputs, Ok(v.to_text())),
            Action::Failed(e) => return (outputs, Err(e.message)),
            Action::Overflow => return (outputs, Err("overflow".to_string())),
            Action::OutOfFuel => return (outputs, Err("out of fuel".to_string())),
        }
    }
    panic!("the action did not end");
}

fn io(kind: IoKind, args: Vec<Value>) -> Value {
    Value::Io { kind, args }
}

fn builtin(op: BuiltinOp) -> Value {
    Value::Builtin { op, args: vec![] }
}

#[test]
fn read_line_then_print_it() {
    let program = io(IoKind::Bind, vec![io(IoKind::ReadLine, vec![]), builtin(BuiltinOp::PrintLine)]);
    let (outputs, end) = run(program, &["hello\r\n"]);
    assert_eq!(outputs, vec!["line:hello".to_string()]);
    assert_eq!(end, Ok("()".to_string()));
}

#[test]
fn then_runs_both_in_order() {
    let program = io(
        IoKind::Then,
        vec![io(IoKind::Print, vec![Value::String("a".to_string())]), io(IoKind::Return, vec![Value::Int32(5)])],
    );
    let (outputs, end) = run(program, &[]);
    assert_eq!(outputs, vec!["print:a".to_string()]);
    assert_eq!(end, Ok("5".to_string()));
}

#[test]
fn fmap_applies_the_function_to_the_result() {
    let program = io(IoKind::Fmap, vec![builtin(BuiltinOp::ToString), io(IoKind::Return, vec![Value::Int32(7)])]);
    assert_eq!(run(program, &[]).1, Ok("7".to_string()));
}

#[test]
fn join_runs_the_inner_action() {
    let inner = io(IoKind::Return, vec![Value::Int32(1)]);
    let program = io(IoKind::Join, vec![io(IoKind::Return, vec![inner])]);
    assert_eq!(run(program, &[]).1, Ok("1".to_string()));
    let bad = io(IoKind::Join, vec![io(IoKind::Return, vec![Value::Int32(1)])]);
    assert_eq!(run(bad, &[]).1, Err("`join`: argument did not produce an IO".to_string()));
}

#[test]
fn bind_needs_an_action_back() {
    let program = io(IoKind::Bind, vec![io(IoKind::Return, vec![Value::Int32(1)]), builtin(BuiltinOp::ToString)]);
    assert_eq!(run(program, &[]).1, Err("`bind`: function must return an IO".to_string()));
}

#[test]
fn running_a_number_fails() {
    assert_eq!(run(Value::Int32(3), &[]).1, Err("cannot run a value that is not an IO".to_string()));
}

#[test]
fn line_endings_are_taken_off() {
    assert_eq!(trim_line("abc\n"), "abc");
    assert_eq!(trim_line("abc\r\n"), "abc");
    assert_eq!(trim_line("abc\n\r"), "abc\n");
    assert_eq!(trim_line(""), "");
    assert_eq!(trim_line("x"), "x");
}

#[test]
fn then_stops_when_the_first_action_fails() {
    let failing = io(
        IoKind::Then,
        vec![io(IoKind::Print, vec![Value::String("a".to_string())]), io(IoKind::Join, vec![io(IoKind::Return, vec![Value::Int32(1)])])],
    );
    let program = io(IoKind::Then, vec![failing, io(IoKind::Print, vec![Value::String("b".to_string())])]);
    let (outputs, end) = run(program, &[]);
    assert_eq!(outputs, vec!["print:a".to_string()]);
    assert_eq!(end, Err("`join`: argument did not produce an IO".to_string()));
}

#[test]
fn then_reads_in_order() {
    let first = io(IoKind::Bind, vec![io(IoKind::ReadLine, vec![]), builtin(BuiltinOp::PrintLine)]);
    let second = io(IoKind::Bind, vec![io(IoKind::ReadLine, vec![]), builtin(BuiltinOp::Print)]);
    let (outputs, end) = run(io(IoKind::Then, vec![first, second]), &["one\n", "two\n"]);
    assert_eq!(outputs, vec!["line:one".to_string(), "print:two".to_string()]);
    assert_eq!(end, Ok("()".to_string()));
}
