//! Running an input or output action, one step at a time: each step says
//! what to print or whether a line must be read, and the caller does it and
//! hands back the line.
use vstd::prelude::*;

use crate::error::ErrorKind;
use crate::error::ErrorModel;
use crate::error::FogError;
use crate::interpreter::eval::apply;
use crate::interpreter::eval::spec_apply;
use crate::interpreter::eval::Eval;
use crate::interpreter::eval::EvalModel;
use crate::interpreter::value::copy_value;
use crate::interpreter::value::lemma_value_views;
use crate::interpreter::value::runtime_error;
use crate::interpreter::value::value_views;
use crate::interpreter::value::IoKind;
use crate::interpreter::value::BuiltinOp;
use crate::interpreter::value::spec_apply_builtin;
use crate::interpreter::value::first_error;
use crate::interpreter::value::Value;
use crate::interpreter::value::ValueModel;
use crate::util::chars_of;
use crate::util::string_from;
use crate::util::string_push;

verus! {

/// What is left to do once the running action has given its value.
pub enum Frame {
    /// Run the action the value is.
    Join,
    /// Apply the function to the value; that is the result.
    Fmap(Value),
    /// Apply the function to the value, and run the action it gives.
    Bind(Value),
    /// Run the second action; its value is the result.
    Then(Value),
}

pub enum FrameModel {
    Join,
    Fmap(ValueModel),
    Bind(ValueModel),
    Then(ValueModel),
}

impl View for Frame {
    type V = FrameModel;

    open spec fn view(&self) -> FrameModel {
        match self {
            Frame::Join => FrameModel::Join,
            Frame::Fmap(f) => FrameModel::Fmap(f@),
            Frame::Bind(f) => FrameModel::Bind(f@),
            Frame::Then(b) => FrameModel::Then(b@),
        }
    }
}

pub open spec fn frame_views(s: Seq<Frame>) -> Seq<FrameModel> {
    s.map_values(|f: Frame| f@)
}

/// What the machine does next.
pub enum Control {
    /// Run this action.
    Run(Value),
    /// Hand this value to the frame on top of the stack.
    Give(Value),
    /// Wait for a line of input.
    AwaitLine,
}

pub enum ControlModel {
    Run(ValueModel),
    Give(ValueModel),
    AwaitLine,
}

impl View for Control {
    type V = ControlModel;

    open spec fn view(&self) -> ControlModel {
        match self {
            Control::Run(v) => ControlModel::Run(v@),
            Control::Give(v) => ControlModel::Give(v@),
            Control::AwaitLine => ControlModel::AwaitLine,
        }
    }
}

/// A running action: what to do next, and the frames waiting for values.
pub struct Machine {
    pub control: Control,
    pub stack: Vec<Frame>,
}

pub struct MachineModel {
    pub control: ControlModel,
    pub stack: Seq<FrameModel>,
}

impl View for Machine {
    type V = MachineModel;

    open spec fn view(&self) -> MachineModel {
        MachineModel { control: self.control@, stack: frame_views(self.stack@) }
    }
}

/// What a step asks of the caller, or how the run ended.
pub enum Action {
    Print(String),
    PrintLine(String),
    ReadLine,
    Continue,
    Finished(Value),
    Failed(FogError),
    Overflow,
    OutOfFuel,
}

pub enum ActionModel {
    Print(Seq<char>),
    PrintLine(Seq<char>),
    ReadLine,
    Continue,
    Finished(ValueModel),
    Failed(ErrorModel),
    Overflow,
    OutOfFuel,
}

impl View for Action {
    type V = ActionModel;

    open spec fn view(&self) -> ActionModel {
        match self {
            Action::Print(s) => ActionModel::Print(s@),
            Action::PrintLine(s) => ActionModel::PrintLine(s@),
            Action::ReadLine => ActionModel::ReadLine,
            Action::Continue => ActionModel::Continue,
            Action::Finished(v) => ActionModel::Finished(v@),
            Action::Failed(e) => ActionModel::Failed(e@),
            Action::Overflow => ActionModel::Overflow,
            Action::OutOfFuel => ActionModel::OutOfFuel,
        }
    }
}

/// A line as read, without its line ending: a final `\n`, then a final
/// `\r`, taken off.
pub open spec fn spec_trim_line(line: Seq<char>) -> Seq<char> {
    let a = if line.len() > 0 && line.last() == '\n' {
        line.drop_last()
    } else {
        line
    };
    if a.len() > 0 && a.last() == '\r' {
        a.drop_last()
    } else {
        a
    }
}

pub open spec fn unit_value() -> ValueModel {
    ValueModel::Tuple(Seq::empty())
}

pub open spec fn with_control(m: MachineModel, c: ControlModel) -> MachineModel {
    MachineModel { control: c, stack: m.stack }
}

pub open spec fn popped(m: MachineModel, c: ControlModel) -> MachineModel {
    MachineModel { control: c, stack: m.stack.drop_last() }
}

pub open spec fn pushed(m: MachineModel, f: FrameModel, c: ControlModel) -> MachineModel {
    MachineModel { control: c, stack: m.stack.push(f) }
}

/// One step of a running action. `line` is the line read, where the
/// machine waits for one; `fuel` is what each function application may
/// spend.
pub open spec fn spec_step(m: MachineModel, line: Option<Seq<char>>, fuel: nat) -> (MachineModel, ActionModel) {
    match m.control {
        ControlModel::AwaitLine => match line {
            Some(l) => (with_control(m, ControlModel::Give(ValueModel::String(spec_trim_line(l)))), ActionModel::Continue),
            None => (m, ActionModel::ReadLine),
        },
        ControlModel::Run(io) => match io {
            ValueModel::Io { kind, args } => match kind {
                IoKind::ReadLine => (with_control(m, ControlModel::AwaitLine), ActionModel::ReadLine),
                _ => if args.len() == 0 {
                    (m, ActionModel::Failed(runtime_error("malformed action"@)))
                } else {
                    match kind {
                        IoKind::Return => (with_control(m, ControlModel::Give(args[0])), ActionModel::Continue),
                        IoKind::Print => match args[0] {
                            ValueModel::String(s) => (with_control(m, ControlModel::Give(unit_value())), ActionModel::Print(s)),
                            _ => (m, ActionModel::Failed(runtime_error("malformed action"@))),
                        },
                        IoKind::PrintLine => match args[0] {
                            ValueModel::String(s) => (
                                with_control(m, ControlModel::Give(unit_value())),
                                ActionModel::PrintLine(s),
                            ),
                            _ => (m, ActionModel::Failed(runtime_error("malformed action"@))),
                        },
                        IoKind::Join => (pushed(m, FrameModel::Join, ControlModel::Run(args[0])), ActionModel::Continue),
                        _ => if args.len() < 2 {
                            (m, ActionModel::Failed(runtime_error("malformed action"@)))
                        } else {
                            match kind {
                                IoKind::Fmap => (
                                    pushed(m, FrameModel::Fmap(args[0]), ControlModel::Run(args[1])),
                                    ActionModel::Continue,
                                ),
                                IoKind::Bind => (
                                    pushed(m, FrameModel::Bind(args[1]), ControlModel::Run(args[0])),
                                    ActionModel::Continue,
                                ),
                                _ => (
                                    pushed(m, FrameModel::Then(args[1]), ControlModel::Run(args[0])),
                                    ActionModel::Continue,
                                ),
                            }
                        },
                    }
                },
            },
            _ => (m, ActionModel::Failed(runtime_error("cannot run a value that is not an IO"@))),
        },
        ControlModel::Give(v) => if m.stack.len() == 0 {
            (m, ActionModel::Finished(v))
        } else {
            match m.stack.last() {
                FrameModel::Join => match v {
                    ValueModel::Io { .. } => (popped(m, ControlModel::Run(v)), ActionModel::Continue),
                    _ => (m, ActionModel::Failed(runtime_error("`join`: argument did not produce an IO"@))),
                },
                FrameModel::Then(b) => (popped(m, ControlModel::Run(b)), ActionModel::Continue),
                FrameModel::Fmap(f) => match spec_apply(f, v, fuel) {
                    EvalModel::Done(x) => (popped(m, ControlModel::Give(x)), ActionModel::Continue),
                    EvalModel::Failed(e) => (m, ActionModel::Failed(e)),
                    EvalModel::Overflow => (m, ActionModel::Overflow),
                    EvalModel::OutOfFuel => (m, ActionModel::OutOfFuel),
                },
                FrameModel::Bind(f) => match spec_apply(f, v, fuel) {
                    EvalModel::Done(x) => match x {
                        ValueModel::Io { .. } => (popped(m, ControlModel::Run(x)), ActionModel::Continue),
                        _ => (m, ActionModel::Failed(runtime_error("`bind`: function must return an IO"@))),
                    },
                    EvalModel::Failed(e) => (m, ActionModel::Failed(e)),
                    EvalModel::Overflow => (m, ActionModel::Overflow),
                    EvalModel::OutOfFuel => (m, ActionModel::OutOfFuel),
                },
            }
        },
    }
}

// --- whole runs ---

/// The machine that starts running `io`.
pub open spec fn start_model(io: ValueModel) -> MachineModel {
    MachineModel { control: ControlModel::Run(io), stack: Seq::empty() }
}

/// Where a run ends: with a value, an error, an overflow or out of fuel.
pub open spec fn is_end(a: ActionModel) -> bool {
    a is Finished || a is Failed || a is Overflow || a is OutOfFuel
}

/// The line a step is handed: the next input, where the machine waits for
/// one and there is one left.
pub open spec fn next_line(m: MachineModel, lines: Seq<Seq<char>>) -> Option<Seq<char>> {
    if m.control is AwaitLine && lines.len() > 0 {
        Some(lines[0])
    } else {
        None
    }
}

pub open spec fn lines_after(m: MachineModel, lines: Seq<Seq<char>>) -> Seq<Seq<char>> {
    if m.control is AwaitLine && lines.len() > 0 {
        lines.drop_first()
    } else {
        lines
    }
}

/// What a run did: the machine it stopped in, what it printed, in order,
/// the input lines it left unread, and how it ended, if it did. A run that
/// waits for a line when none is left ends with `ReadLine`.
pub struct RunModel {
    pub machine: MachineModel,
    pub effects: Seq<ActionModel>,
    pub lines: Seq<Seq<char>>,
    pub end: Option<ActionModel>,
}

/// At most `n` steps of a machine, reading from `lines`.
pub open spec fn spec_run(m: MachineModel, lines: Seq<Seq<char>>, fuel: nat, n: nat) -> RunModel
    decreases n,
{
    if n == 0 {
        RunModel { machine: m, effects: Seq::empty(), lines, end: None }
    } else {
        let (m2, a) = spec_step(m, next_line(m, lines), fuel);
        let rest = lines_after(m, lines);
        if is_end(a) {
            RunModel { machine: m2, effects: Seq::empty(), lines: rest, end: Some(a) }
        } else if m.control is AwaitLine && lines.len() == 0 {
            RunModel { machine: m2, effects: Seq::empty(), lines: rest, end: Some(ActionModel::ReadLine) }
        } else {
            let r = spec_run(m2, rest, fuel, (n - 1) as nat);
            RunModel {
                machine: r.machine,
                effects: (if a is Print || a is PrintLine {
                    seq![a]
                } else {
                    Seq::empty()
                }) + r.effects,
                lines: r.lines,
                end: r.end,
            }
        }
    }
}

/// A machine with frames `f` waiting under its own.
pub open spec fn under(m: MachineModel, f: Seq<FrameModel>) -> MachineModel {
    MachineModel { control: m.control, stack: f + m.stack }
}

/// Frames underneath do not change a step, unless the machine hands a
/// value to an empty stack.
proof fn lemma_step_under(m: MachineModel, f: Seq<FrameModel>, line: Option<Seq<char>>, fuel: nat)
    requires
        !(m.control is Give && m.stack.len() == 0),
    ensures
        spec_step(under(m, f), line, fuel) == (under(spec_step(m, line, fuel).0, f), spec_step(m, line, fuel).1),
{
    let s = m.stack;
    assert forall|x: FrameModel| (f + s).push(x) =~= f + s.push(x) by {}
    if s.len() > 0 {
        assert((f + s).drop_last() =~= f + s.drop_last());
        assert((f + s).last() == s.last());
    }
}

/// A run that does not finish with a value runs the same with frames
/// underneath.
proof fn lemma_run_under(m: MachineModel, f: Seq<FrameModel>, lines: Seq<Seq<char>>, fuel: nat, n: nat)
    requires
        !(spec_run(m, lines, fuel, n).end matches Some(ActionModel::Finished(_))),
    ensures
        ({
            let r = spec_run(m, lines, fuel, n);
            spec_run(under(m, f), lines, fuel, n) == RunModel { machine: under(r.machine, f), ..r }
        }),
    decreases n,
{
    if n > 0 {
        let (m2, a) = spec_step(m, next_line(m, lines), fuel);
        lemma_step_under(m, f, next_line(m, lines), fuel);
        if !is_end(a) && !(m.control is AwaitLine && lines.len() == 0) {
            lemma_run_under(m2, f, lines_after(m, lines), fuel, (n - 1) as nat);
        }
    }
}

/// A run that finishes with `v`, with frames underneath, reaches in fewer
/// steps the point where it hands `v` to those frames, having printed and
/// read the same.
proof fn lemma_run_under_finished(
    m: MachineModel,
    f: Seq<FrameModel>,
    lines: Seq<Seq<char>>,
    fuel: nat,
    n: nat,
    v: ValueModel,
) -> (k: nat)
    requires
        spec_run(m, lines, fuel, n).end == Some(ActionModel::Finished(v)),
    ensures
        k < n,
        spec_run(under(m, f), lines, fuel, k) == (RunModel {
            machine: MachineModel { control: ControlModel::Give(v), stack: f },
            effects: spec_run(m, lines, fuel, n).effects,
            lines: spec_run(m, lines, fuel, n).lines,
            end: None,
        }),
    decreases n,
{
    let (m2, a) = spec_step(m, next_line(m, lines), fuel);
    if m.control is Give && m.stack.len() == 0 {
        assert(f + m.stack =~= f);
        0
    } else {
        lemma_step_under(m, f, next_line(m, lines), fuel);
        let k = lemma_run_under_finished(m2, f, lines_after(m, lines), fuel, (n - 1) as nat, v);
        k + 1
    }
}

/// Once a run has ended, more steps change nothing.
proof fn lemma_run_more_steps(m: MachineModel, lines: Seq<Seq<char>>, fuel: nat, n: nat, n2: nat)
    requires
        n <= n2,
        spec_run(m, lines, fuel, n).end is Some,
    ensures
        spec_run(m, lines, fuel, n2) == spec_run(m, lines, fuel, n),
    decreases n,
{
    let (m2, a) = spec_step(m, next_line(m, lines), fuel);
    if !is_end(a) && !(m.control is AwaitLine && lines.len() == 0) {
        lemma_run_more_steps(m2, lines_after(m, lines), fuel, (n - 1) as nat, (n2 - 1) as nat);
    }
}

/// A run of `n1 + n2` steps is one of `n1` steps that has not ended, then
/// one of `n2` from where it stopped.
proof fn lemma_run_split(m: MachineModel, lines: Seq<Seq<char>>, fuel: nat, n1: nat, n2: nat)
    requires
        spec_run(m, lines, fuel, n1).end is None,
    ensures
        ({
            let r1 = spec_run(m, lines, fuel, n1);
            let r2 = spec_run(r1.machine, r1.lines, fuel, n2);
            spec_run(m, lines, fuel, n1 + n2) == RunModel { effects: r1.effects + r2.effects, ..r2 }
        }),
    decreases n1,
{
    if n1 == 0 {
        let r2 = spec_run(m, lines, fuel, n2);
        assert(Seq::<ActionModel>::empty() + r2.effects =~= r2.effects);
    } else {
        let (m2, a) = spec_step(m, next_line(m, lines), fuel);
        let rest = lines_after(m, lines);
        lemma_run_split(m2, rest, fuel, (n1 - 1) as nat, n2);
        assert((n1 + n2 - 1) as nat == ((n1 - 1) as nat + n2) as nat);
        let r1 = spec_run(m2, rest, fuel, (n1 - 1) as nat);
        let r2 = spec_run(r1.machine, r1.lines, fuel, n2);
        let e: Seq<ActionModel> = if a is Print || a is PrintLine {
            seq![a]
        } else {
            Seq::empty()
        };
        assert(e + (r1.effects + r2.effects) =~= (e + r1.effects) + r2.effects);
    }
}

/// Applying `then` to two actions runs nothing: it gives the action that
/// runs them in turn. A first argument that is not an action is an error.
pub proof fn law_then_builds_action(a: ValueModel, b: ValueModel)
    requires
        b is Io,
    ensures
        a is Io ==> spec_apply_builtin(BuiltinOp::Then, Seq::empty(), a) == Ok::<ValueModel, ErrorModel>(
            ValueModel::Builtin { op: BuiltinOp::Then, args: seq![a] },
        ),
        a is Io ==> spec_apply_builtin(BuiltinOp::Then, seq![a], b) == Ok::<ValueModel, ErrorModel>(
            ValueModel::Io { kind: IoKind::Then, args: seq![a, b] },
        ),
        !(a is Io) ==> spec_apply_builtin(BuiltinOp::Then, Seq::empty(), a) == Err::<ValueModel, ErrorModel>(
            first_error(BuiltinOp::Then, a),
        ),
{
    assert(seq![a][0] == a);
}

/// `then a b` run: `a`'s effects, then `b`'s, and `b`'s result. Where `a`
/// finishes with a value within `na` steps, leaving `rest` of the input,
/// and `b` then ends within `nb` steps, the whole ends as `b` does, having
/// printed what `a` printed and then what `b` printed.
pub proof fn law_then_runs_in_order(
    a: ValueModel,
    b: ValueModel,
    lines: Seq<Seq<char>>,
    fuel: nat,
    na: nat,
    nb: nat,
)
    requires
        spec_run(start_model(a), lines, fuel, na).end matches Some(ActionModel::Finished(_)),
        spec_run(start_model(b), spec_run(start_model(a), lines, fuel, na).lines, fuel, nb).end is Some,
    ensures
        ({
            let ra = spec_run(start_model(a), lines, fuel, na);
            let rb = spec_run(start_model(b), ra.lines, fuel, nb);
            let r = spec_run(start_model(ValueModel::Io { kind: IoKind::Then, args: seq![a, b] }), lines, fuel, 1 + na + nb);
            &&& r.effects == ra.effects + rb.effects
            &&& r.end == rb.end
            &&& r.lines == rb.lines
        }),
{
    let ra = spec_run(start_model(a), lines, fuel, na);
    let rb = spec_run(start_model(b), ra.lines, fuel, nb);
    let t = start_model(ValueModel::Io { kind: IoKind::Then, args: seq![a, b] });
    let f = seq![FrameModel::Then(b)];
    let v = ra.end.unwrap()->Finished_0;
    // the first step puts `b` aside and runs `a`
    let m1 = MachineModel { control: ControlModel::Run(a), stack: f };
    assert(Seq::<FrameModel>::empty().push(FrameModel::Then(b)) =~= f);
    assert(spec_step(t, next_line(t, lines), fuel) == (m1, ActionModel::Continue));
    assert(under(start_model(a), f) == m1) by {
        assert(f + Seq::<FrameModel>::empty() =~= f);
    }
    // `a` runs until it hands its value to `then`
    let k = lemma_run_under_finished(start_model(a), f, lines, fuel, na, v);
    let n = (na + nb) as nat;
    lemma_run_split(m1, lines, fuel, k, (n - k) as nat);
    // then `b` starts, with nothing underneath
    let mg = MachineModel { control: ControlModel::Give(v), stack: f };
    assert(f.drop_last() =~= Seq::<FrameModel>::empty());
    assert(spec_step(mg, next_line(mg, ra.lines), fuel) == (start_model(b), ActionModel::Continue));
    lemma_run_more_steps(start_model(b), ra.lines, fuel, nb, (n - k - 1) as nat);
    let rg = spec_run(mg, ra.lines, fuel, (n - k) as nat);
    assert(rg.effects =~= rb.effects);
    let r1 = spec_run(m1, lines, fuel, n);
    assert(r1.effects =~= ra.effects + rb.effects);
    assert(spec_run(t, lines, fuel, 1 + na + nb).effects =~= r1.effects);
}

/// `fmap f a` run: `a`'s effects, then `f` applied to what `a` gave.
/// Where `a` finishes with `v` within `na` steps and `f` applied to `v`
/// gives `x`, the whole finishes with `x` within `na + 2` steps, having
/// printed what `a` printed and read what it read.
pub proof fn law_fmap_applies_the_function(
    f: ValueModel,
    a: ValueModel,
    v: ValueModel,
    x: ValueModel,
    lines: Seq<Seq<char>>,
    fuel: nat,
    na: nat,
)
    requires
        spec_run(start_model(a), lines, fuel, na).end == Some(ActionModel::Finished(v)),
        spec_apply(f, v, fuel) == EvalModel::Done(x),
    ensures
        ({
            let ra = spec_run(start_model(a), lines, fuel, na);
            let r = spec_run(start_model(ValueModel::Io { kind: IoKind::Fmap, args: seq![f, a] }), lines, fuel, na + 2);
            &&& r.end == Some(ActionModel::Finished(x))
            &&& r.effects == ra.effects
            &&& r.lines == ra.lines
        }),
{
    let ra = spec_run(start_model(a), lines, fuel, na);
    let t = start_model(ValueModel::Io { kind: IoKind::Fmap, args: seq![f, a] });
    let fr = seq![FrameModel::Fmap(f)];
    let m1 = MachineModel { control: ControlModel::Run(a), stack: fr };
    assert(Seq::<FrameModel>::empty().push(FrameModel::Fmap(f)) =~= fr);
    assert(spec_step(t, next_line(t, lines), fuel) == (m1, ActionModel::Continue));
    assert(under(start_model(a), fr) == m1) by {
        assert(fr + Seq::<FrameModel>::empty() =~= fr);
    }
    let k = lemma_run_under_finished(start_model(a), fr, lines, fuel, na, v);
    let n = (na + 1) as nat;
    lemma_run_split(m1, lines, fuel, k, (n - k) as nat);
    let mg = MachineModel { control: ControlModel::Give(v), stack: fr };
    let mx = MachineModel { control: ControlModel::Give(x), stack: Seq::empty() };
    assert(fr.drop_last() =~= Seq::<FrameModel>::empty());
    assert(spec_step(mg, next_line(mg, ra.lines), fuel) == (mx, ActionModel::Continue));
    assert(spec_step(mx, next_line(mx, ra.lines), fuel) == (mx, ActionModel::Finished(x)));
    let rx = spec_run(mx, ra.lines, fuel, (n - k - 1) as nat);
    assert(rx.end == Some(ActionModel::Finished(x)) && rx.effects =~= Seq::<ActionModel>::empty() && rx.lines
        == ra.lines);
    let rg = spec_run(mg, ra.lines, fuel, (n - k) as nat);
    assert(rg.effects =~= Seq::<ActionModel>::empty());
    let r1 = spec_run(m1, lines, fuel, n);
    assert(r1.effects =~= ra.effects);
    assert(spec_run(t, lines, fuel, na + 2).effects =~= r1.effects);
}

/// `then a b` run where `a` ends without a value, with an error, an
/// overflow or out of fuel: the whole ends the same way after `a`'s
/// effects, and `b` never runs.
pub proof fn law_then_stops_on_failure(
    a: ValueModel,
    b: ValueModel,
    lines: Seq<Seq<char>>,
    fuel: nat,
    na: nat,
    n: nat,
)
    requires
        spec_run(start_model(a), lines, fuel, na).end is Some,
        !(spec_run(start_model(a), lines, fuel, na).end matches Some(ActionModel::Finished(_))),
        na < n,
    ensures
        ({
            let ra = spec_run(start_model(a), lines, fuel, na);
            let r = spec_run(start_model(ValueModel::Io { kind: IoKind::Then, args: seq![a, b] }), lines, fuel, n);
            &&& r.effects == ra.effects
            &&& r.end == ra.end
            &&& r.lines == ra.lines
        }),
{
    let t = start_model(ValueModel::Io { kind: IoKind::Then, args: seq![a, b] });
    let f = seq![FrameModel::Then(b)];
    let m1 = MachineModel { control: ControlModel::Run(a), stack: f };
    assert(Seq::<FrameModel>::empty().push(FrameModel::Then(b)) =~= f);
    assert(spec_step(t, next_line(t, lines), fuel) == (m1, ActionModel::Continue));
    assert(under(start_model(a), f) == m1) by {
        assert(f + Seq::<FrameModel>::empty() =~= f);
    }
    lemma_run_under(start_model(a), f, lines, fuel, na);
    lemma_run_more_steps(m1, lines, fuel, na, (n - 1) as nat);
    let r1 = spec_run(m1, lines, fuel, (n - 1) as nat);
    assert(spec_run(t, lines, fuel, n).effects =~= r1.effects);
}

/// A line without its line ending.
pub fn trim_line(line: &str) -> (r: String)
    ensures
        r@ == spec_trim_line(line@),
{
    let cs = chars_of(line);
    let mut n: usize = cs.len();
    if n > 0 && cs[n - 1] == '\n' {
        n = n - 1;
    }
    if n > 0 && cs[n - 1] == '\r' {
        n = n - 1;
    }
    let mut out = String::new();
    let mut i: usize = 0;
    while i < n
        invariant
            i <= n <= cs.len(),
            out@ == cs@.take(i as int),
        decreases n - i,
    {
        string_push(&mut out, cs[i]);
        assert(cs@.take(i + 1) =~= cs@.take(i as int).push(cs@[i as int]));
        i = i + 1;
    }
    proof {
        let l = line@;
        let a = if l.len() > 0 && l.last() == '\n' {
            l.drop_last()
        } else {
            l
        };
        assert(a =~= l.take(a.len() as int));
        if a.len() > 0 && a.last() == '\r' {
            assert(a.drop_last() =~= l.take(a.len() - 1));
        }
        assert(out@ =~= spec_trim_line(l));
    }
    out
}

/// A machine that runs `io`.
pub fn start(io: Value) -> (m: Machine)
    ensures
        m@ == (MachineModel { control: ControlModel::Run(io@), stack: Seq::empty() }),
{
    let m = Machine { control: Control::Run(io), stack: Vec::new() };
    assert(frame_views(m.stack@) =~= Seq::<FrameModel>::empty());
    m
}

fn malformed() -> (e: FogError)
    ensures
        e@ == runtime_error("malformed action"@),
{
    FogError::new(ErrorKind::Runtime, string_from("malformed action"), None)
}

fn failure(message: &str) -> (e: FogError)
    ensures
        e@ == runtime_error(message@),
{
    FogError::new(ErrorKind::Runtime, string_from(message), None)
}

/// One step of a running action.
pub fn step(m: Machine, line: Option<String>, fuel: u64) -> (r: (Machine, Action))
    ensures
        (r.0@, r.1@) == spec_step(
            m@,
            match line {
                Some(l) => Some(l@),
                None => None,
            },
            fuel as nat,
        ),
{
    let ghost mm = m@;
    let Machine { control, mut stack } = m;
    match control {
        Control::AwaitLine => match line {
            Some(l) => {
                let t = trim_line(l.as_str());
                (Machine { control: Control::Give(Value::String(t)), stack }, Action::Continue)
            },
            None => (Machine { control: Control::AwaitLine, stack }, Action::ReadLine),
        },
        Control::Run(io) => {
            let (kind, args) = match io {
                Value::Io { kind, args } => (kind, args),
                other => {
                    return (
                        Machine { control: Control::Run(other), stack },
                        Action::Failed(failure("cannot run a value that is not an IO")),
                    );
                },
            };
            proof {
                lemma_value_views(args@);
            }
            match kind {
                IoKind::ReadLine => {
                    return (Machine { control: Control::AwaitLine, stack }, Action::ReadLine);
                },
                _ => {},
            }
            if args.len() == 0 {
                return (Machine { control: Control::Run(Value::Io { kind, args }), stack }, Action::Failed(malformed()));
            }
            match kind {
                IoKind::Return => {
                    let x = copy_value(&args[0]);
                    return (Machine { control: Control::Give(x), stack }, Action::Continue);
                },
                IoKind::Print | IoKind::PrintLine => {
                    let text = match &args[0] {
                        Value::String(s) => s.clone(),
                        _ => {
                            return (
                                Machine { control: Control::Run(Value::Io { kind, args }), stack },
                                Action::Failed(malformed()),
                            );
                        },
                    };
                    let unit = Value::Tuple(Vec::new());
                    proof {
                        assert(value_views(Seq::<Value>::empty()) =~= Seq::<ValueModel>::empty());
                    }
                    let action = match kind {
                        IoKind::Print => Action::Print(text),
                        _ => Action::PrintLine(text),
                    };
                    return (Machine { control: Control::Give(unit), stack }, action);
                },
                IoKind::Join => {
                    let inner = copy_value(&args[0]);
                    let ghost before = stack@;
                    stack.push(Frame::Join);
                    proof {
                        assert(frame_views(stack@) =~= frame_views(before).push(FrameModel::Join));
                    }
                    return (Machine { control: Control::Run(inner), stack }, Action::Continue);
                },
                _ => {},
            }
            if args.len() < 2 {
                return (Machine { control: Control::Run(Value::Io { kind, args }), stack }, Action::Failed(malformed()));
            }
            let a0 = copy_value(&args[0]);
            let a1 = copy_value(&args[1]);
            let ghost before = stack@;
            let (frame, next) = match kind {
                IoKind::Fmap => (Frame::Fmap(a0), a1),
                IoKind::Bind => (Frame::Bind(a1), a0),
                _ => (Frame::Then(a1), a0),
            };
            let ghost fm = frame@;
            stack.push(frame);
            proof {
                assert(frame_views(stack@) =~= frame_views(before).push(fm));
            }
            (Machine { control: Control::Run(next), stack }, Action::Continue)
        },
        Control::Give(v) => {
            if stack.len() == 0 {
                proof {
                    assert(frame_views(stack@).len() == 0);
                }
                return (Machine { control: Control::Give(copy_value(&v)), stack }, Action::Finished(v));
            }
            let ghost before = stack@;
            let top = stack.pop().unwrap();
            proof {
                assert(before == stack@.push(top));
                assert(frame_views(before).last() == top@);
                assert(frame_views(before).drop_last() =~= frame_views(stack@));
            }
            match top {
                Frame::Join => match v {
                    Value::Io { kind, args } => {
                        (Machine { control: Control::Run(Value::Io { kind, args }), stack }, Action::Continue)
                    },
                    other => {
                        stack.push(Frame::Join);
                        proof {
                            assert(stack@ =~= before);
                        }
                        (
                            Machine { control: Control::Give(other), stack },
                            Action::Failed(failure("`join`: argument did not produce an IO")),
                        )
                    },
                },
                Frame::Then(b) => (Machine { control: Control::Run(b), stack }, Action::Continue),
                Frame::Fmap(f) => {
                    let keep_f = copy_value(&f);
                    let keep_v = copy_value(&v);
                    match apply(f, v, fuel) {
                        Eval::Done(x) => (Machine { control: Control::Give(x), stack }, Action::Continue),
                        other => {
                            stack.push(Frame::Fmap(keep_f));
                            proof {
                                assert(frame_views(stack@) =~= frame_views(before));
                            }
                            let action = match other {
                                Eval::Failed(e) => Action::Failed(e),
                                Eval::Overflow => Action::Overflow,
                                _ => Action::OutOfFuel,
                            };
                            (Machine { control: Control::Give(keep_v), stack }, action)
                        },
                    }
                },
                Frame::Bind(f) => {
                    let keep_f = copy_value(&f);
                    let keep_v = copy_value(&v);
                    match apply(f, v, fuel) {
                        Eval::Done(x) => match x {
                            Value::Io { kind, args } => {
                                (Machine { control: Control::Run(Value::Io { kind, args }), stack }, Action::Continue)
                            },
                            _ => {
                                stack.push(Frame::Bind(keep_f));
                                proof {
                                    assert(frame_views(stack@) =~= frame_views(before));
                                }
                                (
                                    Machine { control: Control::Give(keep_v), stack },
                                    Action::Failed(failure("`bind`: function must return an IO")),
                                )
                            },
                        },
                        other => {
                            stack.push(Frame::Bind(keep_f));
                            proof {
                                assert(frame_views(stack@) =~= frame_views(before));
                            }
                            let action = match other {
                                Eval::Failed(e) => Action::Failed(e),
                                Eval::Overflow => Action::Overflow,
                                _ => Action::OutOfFuel,
                            };
                            (Machine { control: Control::Give(keep_v), stack }, action)
                        },
                    }
                },
            }
        },
    }
}

} // verus!
