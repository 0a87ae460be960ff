//! Scripts: the register traffic of one operation written down as data, and
//! the machine that plays it.
//!
//! A script is a list of steps: single writes, bursts of data words, reads
//! whose values are kept, delays, and bounded polls.  The machine turns a
//! script into one bus operation at a time and takes the value of each read
//! as the input of its next step, so it never touches hardware itself.  Every
//! poll carries its own budget of reads; nothing in a script can wait
//! forever.

use crate::classify::{classify_fault, fault_of};
use crate::err::SdError;
use crate::regs::{Access, Bus, BusOp, Kernel, Reg, Traced, INT_ALL, RESET_LINES};
use vstd::prelude::*;

verus! {

/// One step of a script.
#[derive(Clone, Copy, Debug, PartialEq, Eq)]
pub enum Step {
    /// Write `value` to `reg`.
    Write { reg: Reg, value: u32 },
    /// Write `count` words of the script's data, from index `start` on, to
    /// `reg`, one after the other.
    WriteData { reg: Reg, start: usize, count: usize },
    /// Read `reg` `count` times and keep each value.
    Read { reg: Reg, count: usize },
    /// Let `us` microseconds pass.
    Delay { us: u64 },
    /// Read `reg` until the value masked with `mask` equals `want`, at most
    /// `budget` times with `interval_us` between two reads.  A value with a
    /// bit of `fault` set ends the script with the error classified from
    /// that value; running out of reads ends it with `on_timeout`.  With
    /// `recover` set, a script that ends here first resets the command and
    /// data circuits and clears the interrupt status.
    Poll {
        reg: Reg,
        mask: u32,
        want: u32,
        fault: u32,
        budget: u32,
        interval_us: u64,
        on_timeout: SdError,
        recover: bool,
    },
}

/// Where a machine stands in the life of its script.
#[derive(Clone, Copy, Debug, PartialEq, Eq, Structural)]
pub enum Stage {
    /// Playing the script.
    Run,
    /// Failed; the circuit reset is due.
    Reset,
    /// Failed; the status clear is due.
    Clear,
    /// Ended.
    Done,
}

/// The state of a machine.
pub struct State {
    /// Index of the current step.
    pub pc: int,
    /// Progress inside the current step: words moved, or reads that a poll
    /// has spent.
    pub sub: int,
    /// A poll has waited out the interval after its last read.
    pub rested: bool,
    /// A read was asked for and its value is the next input.
    pub awaiting: bool,
    pub stage: Stage,
    /// The error the script ended with, if any.
    pub error: Option<SdError>,
    /// The values kept so far, in the order read.
    pub captured: Seq<u32>,
}

/// The state before the first step.
pub open spec fn start() -> State {
    State {
        pc: 0,
        sub: 0,
        rested: false,
        awaiting: false,
        stage: Stage::Run,
        error: None,
        captured: Seq::empty(),
    }
}

/// A step is well formed when it moves at least one word, stays inside the
/// data, and polls at least once.
pub open spec fn step_wf(step: Step, data_len: int) -> bool {
    match step {
        Step::WriteData { count, start, .. } => count >= 1 && start + count <= data_len,
        Step::Read { count, .. } => count >= 1,
        Step::Poll { budget, .. } => budget >= 1,
        _ => true,
    }
}

/// Each of the steps is well formed for data of `data_len` words.
pub open spec fn steps_wf(steps: Seq<Step>, data_len: int) -> bool {
    forall|i: int| 0 <= i < steps.len() ==> step_wf(#[trigger] steps[i], data_len)
}

/// A script is well formed when each of its steps is.
pub open spec fn script_wf(script: Seq<Step>, data: Seq<u32>) -> bool {
    steps_wf(script, data.len() as int)
}

/// Steps that are well formed stay so when they are joined.
pub proof fn lemma_steps_wf_join(a: Seq<Step>, b: Seq<Step>, data_len: int)
    requires
        steps_wf(a, data_len),
        steps_wf(b, data_len),
    ensures
        steps_wf(a + b, data_len),
{
    assert forall|i: int| 0 <= i < (a + b).len() implies step_wf(#[trigger] (a + b)[i], data_len) by {
        if i < a.len() {
            assert((a + b)[i] == a[i]);
        } else {
            assert((a + b)[i] == b[i - a.len()]);
        }
    }
}

/// The most bus operations a step can ask for.
pub open spec fn step_cost(step: Step) -> nat {
    match step {
        Step::Write { .. } => 1,
        Step::Delay { .. } => 1,
        Step::WriteData { count, .. } => count as nat,
        Step::Read { count, .. } => count as nat,
        Step::Poll { budget, .. } => 2 * (budget as nat),
    }
}

/// The most bus operations the steps from `pc` on can ask for.
pub open spec fn cost_from(script: Seq<Step>, pc: int) -> nat
    decreases script.len() - pc,
{
    if pc < 0 || pc >= script.len() {
        0
    } else {
        step_cost(script[pc]) + cost_from(script, pc + 1)
    }
}

/// Bus operations already asked for by the current step.
pub open spec fn spent(script: Seq<Step>, s: State) -> int {
    if 0 <= s.pc < script.len() {
        match script[s.pc] {
            Step::Read { .. } => s.sub + if s.awaiting { 1int } else { 0 },
            Step::WriteData { .. } => s.sub,
            Step::Poll { .. } => if s.sub == 0 {
                if s.awaiting { 1 } else { 0 }
            } else {
                2 * s.sub - 1 + if s.rested { 1int } else { 0 } + if s.awaiting { 1int } else { 0 }
            },
            _ => 0,
        }
    } else {
        0
    }
}

/// An upper bound on the bus operations still to come.
pub open spec fn fuel(script: Seq<Step>, s: State) -> int {
    match s.stage {
        Stage::Done => 0,
        Stage::Clear => 1,
        Stage::Reset => 2,
        Stage::Run => 3 + cost_from(script, s.pc) - spent(script, s),
    }
}

/// The states a machine can be in while it plays `script`.
pub open spec fn state_wf(script: Seq<Step>, s: State) -> bool {
    &&& 0 <= s.pc <= script.len()
    &&& 0 <= s.sub
    &&& s.stage == Stage::Run ==> s.error is None
    &&& s.stage == Stage::Reset || s.stage == Stage::Clear ==> s.error is Some
    &&& s.stage != Stage::Run ==> !s.awaiting
    &&& s.pc == script.len() ==> s.sub == 0 && !s.awaiting && !s.rested
    &&& s.pc < script.len() ==> match script[s.pc] {
        Step::Read { count, .. } => s.sub < count && !s.rested,
        Step::WriteData { count, .. } => s.sub < count && !s.rested && !s.awaiting,
        Step::Poll { budget, .. } => s.sub < budget && (s.sub == 0 ==> !s.rested) && (s.awaiting
            ==> s.sub == 0 || s.rested),
        _ => s.sub == 0 && !s.rested && !s.awaiting,
    }
}

/// The state after a script has failed with `e`.
pub open spec fn abort(s: State, e: SdError, recover: bool) -> State {
    State {
        stage: if recover { Stage::Reset } else { Stage::Done },
        error: Some(e),
        awaiting: false,
        rested: false,
        sub: 0,
        ..s
    }
}

/// The state after the value of a pending read has come in.
pub open spec fn absorb(script: Seq<Step>, s: State, input: u32) -> State {
    if s.stage != Stage::Run || !s.awaiting || !(0 <= s.pc < script.len()) {
        s
    } else {
        match script[s.pc] {
            Step::Read { count, .. } => if s.sub + 1 >= count {
                State {
                    pc: s.pc + 1,
                    sub: 0,
                    awaiting: false,
                    captured: s.captured.push(input),
                    ..s
                }
            } else {
                State { sub: s.sub + 1, awaiting: false, captured: s.captured.push(input), ..s }
            },
            Step::Poll { mask, want, fault, budget, on_timeout, recover, .. } => if input & fault
                != 0 {
                abort(s, fault_of(input), recover)
            } else if input & mask == want {
                State { pc: s.pc + 1, sub: 0, rested: false, awaiting: false, ..s }
            } else if s.sub + 1 >= budget {
                abort(s, on_timeout, recover)
            } else {
                State { sub: s.sub + 1, rested: false, awaiting: false, ..s }
            },
            _ => State { awaiting: false, ..s },
        }
    }
}

/// The next bus operation of a machine with no read pending, and the state
/// after asking for it.
pub open spec fn emit(script: Seq<Step>, data: Seq<u32>, s: State) -> (State, BusOp) {
    match s.stage {
        Stage::Done => (s, BusOp::Done),
        Stage::Reset => (
            State { stage: Stage::Clear, ..s },
            BusOp::Write { reg: Reg::SoftwareReset, value: RESET_LINES },
        ),
        Stage::Clear => (
            State { stage: Stage::Done, ..s },
            BusOp::Write { reg: Reg::IntStatus, value: INT_ALL },
        ),
        Stage::Run => if !(0 <= s.pc < script.len()) {
            (State { stage: Stage::Done, ..s }, BusOp::Done)
        } else {
            match script[s.pc] {
                Step::Write { reg, value } => (
                    State { pc: s.pc + 1, ..s },
                    BusOp::Write { reg, value },
                ),
                Step::Delay { us } => (State { pc: s.pc + 1, ..s }, BusOp::Delay { us }),
                Step::WriteData { reg, start, count } => (
                    if s.sub + 1 >= count {
                        State { pc: s.pc + 1, sub: 0, ..s }
                    } else {
                        State { sub: s.sub + 1, ..s }
                    },
                    BusOp::Write { reg, value: data[start + s.sub] },
                ),
                Step::Read { reg, .. } => (State { awaiting: true, ..s }, BusOp::Read { reg }),
                Step::Poll { reg, interval_us, .. } => if s.sub > 0 && !s.rested {
                    (State { rested: true, ..s }, BusOp::Delay { us: interval_us })
                } else {
                    (State { awaiting: true, ..s }, BusOp::Read { reg })
                },
            }
        },
    }
}

/// One step of the machine: take in the input where a read was pending,
/// then ask for the next bus operation.
pub open spec fn next(script: Seq<Step>, data: Seq<u32>, s: State, input: u32) -> (State, BusOp) {
    emit(script, data, absorb(script, s, input))
}

/// The state after one step for each of `inputs`, from the start.
pub open spec fn replay(script: Seq<Step>, data: Seq<u32>, inputs: Seq<u32>) -> State
    decreases inputs.len(),
{
    if inputs.len() == 0 {
        start()
    } else {
        next(script, data, replay(script, data, inputs.drop_last()), inputs.last()).0
    }
}

/// What a script yields once ended: its error, or the values it kept.
pub open spec fn outcome(s: State) -> Result<Seq<u32>, SdError> {
    match s.error {
        Some(e) => Err(e),
        None => Ok(s.captured),
    }
}

/// `result` is what the script yields when the bus answers with `inputs`,
/// and the script has ended by then: one input per step, the value of the
/// read that the step before asked for, and anything where it asked for
/// none.
pub open spec fn yields(
    script: Seq<Step>,
    data: Seq<u32>,
    inputs: Seq<u32>,
    result: Result<Seq<u32>, SdError>,
) -> bool {
    let end = replay(script, data, inputs);
    end.stage == Stage::Done && outcome(end) == result
}

/// The register that the pending read of a state reads.
pub open spec fn pending_reg(script: Seq<Step>, s: State) -> Reg {
    match script[s.pc] {
        Step::Read { reg, .. } => reg,
        Step::Poll { reg, .. } => reg,
        Step::Write { reg, .. } => reg,
        Step::WriteData { reg, .. } => reg,
        Step::Delay { .. } => Reg::PresentState,
    }
}

/// The read that has happened when `input` comes in for a pending read.
pub open spec fn read_seen(script: Seq<Step>, s: State, input: u32) -> Seq<Access> {
    if s.awaiting {
        seq![Access::Read { reg: pending_reg(script, s), value: input }]
    } else {
        Seq::empty()
    }
}

/// What happens on the bus for an operation other than a read; a read is
/// counted when its value has come in.
pub open spec fn op_seen(op: BusOp) -> Seq<Access> {
    match op {
        BusOp::Write { reg, value } => seq![Access::Write { reg, value }],
        BusOp::Delay { us } => seq![Access::Delay { us }],
        _ => Seq::empty(),
    }
}

/// What happens on the bus while a script is played with `inputs`: the
/// reads with the values they gave, the writes and the delays, in order.
pub open spec fn accesses(script: Seq<Step>, data: Seq<u32>, inputs: Seq<u32>) -> Seq<Access>
    decreases inputs.len(),
{
    if inputs.len() == 0 {
        Seq::empty()
    } else {
        let s = replay(script, data, inputs.drop_last());
        accesses(script, data, inputs.drop_last()) + read_seen(script, s, inputs.last()) + op_seen(
            next(script, data, s, inputs.last()).1,
        )
    }
}

/// `result` is what the script yields for the answers that the bus gave:
/// the record of the bus grows from `before` to `after` by exactly what
/// playing the script with those answers does on the bus.
pub open spec fn played(
    script: Seq<Step>,
    data: Seq<u32>,
    before: Seq<Access>,
    after: Seq<Access>,
    result: Result<Seq<u32>, SdError>,
) -> bool {
    exists|inputs: Seq<u32>| #[trigger]
        yields(script, data, inputs, result) && after == before + accesses(script, data, inputs)
}

/// Taking in an input keeps a state well formed and never adds fuel.
pub proof fn lemma_absorb(script: Seq<Step>, data: Seq<u32>, s: State, input: u32)
    requires
        script_wf(script, data),
        state_wf(script, s),
    ensures
        state_wf(script, absorb(script, s, input)),
        !absorb(script, s, input).awaiting,
        fuel(script, absorb(script, s, input)) <= fuel(script, s),
{
    let t = absorb(script, s, input);
    if s.stage == Stage::Run && s.awaiting {
        assert(0 <= s.pc < script.len());
        assert(step_wf(script[s.pc], data.len() as int));
        assert(cost_from(script, s.pc) == step_cost(script[s.pc]) + cost_from(script, s.pc + 1));
        if t.pc == s.pc + 1 && t.pc < script.len() {
            assert(step_wf(script[t.pc], data.len() as int));
        }
    }
}

/// Asking for the next operation keeps a state well formed and burns fuel
/// until the script has ended.
pub proof fn lemma_emit(script: Seq<Step>, data: Seq<u32>, s: State)
    requires
        script_wf(script, data),
        state_wf(script, s),
        !s.awaiting,
    ensures
        state_wf(script, emit(script, data, s).0),
        s.stage != Stage::Done ==> fuel(script, emit(script, data, s).0) < fuel(script, s),
        emit(script, data, s).1 is Done ==> emit(script, data, s).0.stage == Stage::Done,
        0 <= fuel(script, emit(script, data, s).0),
{
    let t = emit(script, data, s).0;
    if s.stage == Stage::Run && s.pc < script.len() {
        assert(step_wf(script[s.pc], data.len() as int));
        assert(cost_from(script, s.pc) == step_cost(script[s.pc]) + cost_from(script, s.pc + 1));
        if t.pc == s.pc + 1 && t.pc < script.len() {
            assert(step_wf(script[t.pc], data.len() as int));
        }
    }
}

/// The value lets a step go on: any value for a step that is no poll, and
/// for a poll one that shows no fault and meets its condition.
pub open spec fn passes(step: Step, v: u32) -> bool {
    match step {
        Step::Poll { mask, want, fault, .. } => v & fault == 0 && v & mask == want,
        _ => true,
    }
}

/// The value keeps a poll waiting: it shows no fault and does not meet the
/// condition.
pub open spec fn starves(step: Step, v: u32) -> bool {
    match step {
        Step::Poll { mask, want, fault, .. } => v & fault == 0 && v & mask != want,
        _ => false,
    }
}

/// What the bus showed keeps the poll at step `k` waiting and lets every
/// poll before it pass: a value read from a register is one that each poll
/// of that register up to step `k` takes so.
pub open spec fn starving(script: Seq<Step>, k: int, a: Access) -> bool {
    match a {
        Access::Read { reg, value } => forall|i: int|
            0 <= i <= k && (#[trigger] script[i]) is Poll && script[i]->Poll_reg == reg ==> if i
                < k {
                passes(script[i], value)
            } else {
                starves(script[i], value)
            },
        _ => true,
    }
}

proof fn lemma_starved_states(script: Seq<Step>, data: Seq<u32>, k: int, inputs: Seq<u32>)
    requires
        script_wf(script, data),
        0 <= k < script.len(),
        script[k] is Poll,
        forall|m: int|
            0 <= m < accesses(script, data, inputs).len() ==> starving(
                script,
                k,
                #[trigger] accesses(script, data, inputs)[m],
            ),
    ensures
        state_wf(script, replay(script, data, inputs)),
        ({
            let s = replay(script, data, inputs);
            (s.stage == Stage::Run && s.pc <= k) || s.error == Some(script[k]->on_timeout)
        }),
    decreases inputs.len(),
{
    if inputs.len() > 0 {
        let before = inputs.drop_last();
        let v = inputs.last();
        let s = replay(script, data, before);
        let seen = accesses(script, data, before);
        let all = accesses(script, data, inputs);
        assert(all == seen + read_seen(script, s, v) + op_seen(next(script, data, s, v).1));
        assert forall|m: int| 0 <= m < seen.len() implies starving(script, k, #[trigger] seen[m]) by {
            assert(all[m] == seen[m]);
        }
        lemma_starved_states(script, data, k, before);
        let t = absorb(script, s, v);
        lemma_absorb(script, data, s, v);
        lemma_emit(script, data, t);
        if s.awaiting {
            let a = Access::Read { reg: pending_reg(script, s), value: v };
            assert(all[seen.len() as int] == a);
            assert(starving(script, k, a));
            if script[s.pc] is Poll {
                assert(script[s.pc]->Poll_reg == pending_reg(script, s));
            }
        }
    }
}

/// A poll that never sees its condition ends the script with the poll's
/// own timeout error.  Whenever a script has been played on a bus, and
/// every value that the bus showed kept the poll at step `k` waiting while
/// letting the polls before it pass, the script has ended with the timeout
/// error of that poll.
pub proof fn lemma_starved_poll(
    script: Seq<Step>,
    data: Seq<u32>,
    k: int,
    before: Seq<Access>,
    after: Seq<Access>,
    result: Result<Seq<u32>, SdError>,
)
    requires
        script_wf(script, data),
        0 <= k < script.len(),
        script[k] is Poll,
        played(script, data, before, after, result),
        forall|j: int| before.len() <= j < after.len() ==> starving(script, k, #[trigger] after[j]),
    ensures
        result == Err::<Seq<u32>, SdError>(script[k]->on_timeout),
{
    let inputs = choose|inputs: Seq<u32>| #[trigger]
        yields(script, data, inputs, result) && after == before + accesses(script, data, inputs);
    let seen = accesses(script, data, inputs);
    assert forall|m: int| 0 <= m < seen.len() implies starving(script, k, #[trigger] seen[m]) by {
        assert(after[before.len() + m] == seen[m]);
    }
    lemma_starved_states(script, data, k, inputs);
}

/// The values that the reads of `reg` gave, in order.
pub open spec fn reads_of(seen: Seq<Access>, reg: Reg) -> Seq<u32>
    decreases seen.len(),
{
    if seen.len() == 0 {
        Seq::empty()
    } else {
        reads_of(seen.drop_last(), reg) + match seen.last() {
            Access::Read { reg: r, value } => if r == reg {
                seq![value]
            } else {
                Seq::empty()
            },
            _ => Seq::empty(),
        }
    }
}

/// The reads of a record are the reads of its parts, one after the other.
pub proof fn lemma_reads_of_join(a: Seq<Access>, b: Seq<Access>, reg: Reg)
    ensures
        reads_of(a + b, reg) == reads_of(a, reg) + reads_of(b, reg),
    decreases b.len(),
{
    if b.len() == 0 {
        assert(a + b =~= a);
        assert(reads_of(a, reg) + Seq::<u32>::empty() =~= reads_of(a, reg));
    } else {
        assert((a + b).drop_last() =~= a + b.drop_last());
        assert((a + b).last() == b.last());
        lemma_reads_of_join(a, b.drop_last(), reg);
        let tail = match b.last() {
            Access::Read { reg: r, value } => if r == reg {
                seq![value]
            } else {
                Seq::empty()
            },
            _ => Seq::empty(),
        };
        assert(reads_of(a, reg) + (reads_of(b.drop_last(), reg) + tail) =~= reads_of(a, reg)
            + reads_of(b.drop_last(), reg) + tail);
    }
}

/// Each of the values that the reads of `reg` gave is the value of a read
/// of `reg` in the record.
pub proof fn lemma_reads_of_seen(seen: Seq<Access>, reg: Reg, n: int)
    requires
        0 <= n < reads_of(seen, reg).len(),
    ensures
        exists|j: int|
            0 <= j < seen.len() && #[trigger] seen[j] == (Access::Read {
                reg,
                value: reads_of(seen, reg)[n],
            }),
    decreases seen.len(),
{
    let before = seen.drop_last();
    if n < reads_of(before, reg).len() {
        lemma_reads_of_seen(before, reg, n);
        let j = choose|j: int|
            0 <= j < before.len() && #[trigger] before[j] == (Access::Read {
                reg,
                value: reads_of(before, reg)[n],
            });
        assert(seen[j] == before[j]);
    } else {
        assert(seen[seen.len() - 1] == (Access::Read { reg, value: reads_of(seen, reg)[n] }));
    }
}

/// The script keeps what it reads from `reg` and nothing else: every read
/// whose value is kept reads `reg`, and no poll does.
pub open spec fn keeps_only(script: Seq<Step>, reg: Reg) -> bool {
    forall|i: int|
        0 <= i < script.len() ==> match #[trigger] script[i] {
            Step::Read { reg: r, .. } => r == reg,
            Step::Poll { reg: r, .. } => r != reg,
            _ => true,
        }
}

/// What such a script has kept is what the bus gave to its reads of the
/// register, value for value.
pub proof fn lemma_kept_are_reads(script: Seq<Step>, data: Seq<u32>, reg: Reg, inputs: Seq<u32>)
    requires
        script_wf(script, data),
        keeps_only(script, reg),
    ensures
        state_wf(script, replay(script, data, inputs)),
        replay(script, data, inputs).captured == reads_of(accesses(script, data, inputs), reg),
    decreases inputs.len(),
{
    if inputs.len() > 0 {
        let before = inputs.drop_last();
        let v = inputs.last();
        let s = replay(script, data, before);
        lemma_kept_are_reads(script, data, reg, before);
        let t = absorb(script, s, v);
        lemma_absorb(script, data, s, v);
        lemma_emit(script, data, t);
        let seen = accesses(script, data, before);
        let read = read_seen(script, s, v);
        let op = op_seen(next(script, data, s, v).1);
        lemma_reads_of_join(seen, read, reg);
        lemma_reads_of_join(seen + read, op, reg);
        assert(reads_of(op, reg) =~= Seq::<u32>::empty()) by {
            reveal_with_fuel(reads_of, 2);
            if op.len() > 0 {
                assert(op.drop_last() =~= Seq::<Access>::empty());
            }
        }
        assert(reads_of(read, reg) =~= if s.awaiting && script[s.pc] is Read {
            seq![v]
        } else {
            Seq::empty()
        }) by {
            reveal_with_fuel(reads_of, 2);
            if read.len() > 0 {
                assert(read.drop_last() =~= Seq::<Access>::empty());
            }
        }
        assert(replay(script, data, inputs).captured =~= s.captured + reads_of(read, reg));
        assert(s.captured + reads_of(read, reg) + Seq::<u32>::empty() =~= s.captured + reads_of(
            read,
            reg,
        ));
    }
}

/// The script keeps what it reads from `first` in its steps before `split`
/// and what it reads from `second` in its steps from `split` on, and
/// nothing else; no poll reads either register.
pub open spec fn keeps_in_turn(script: Seq<Step>, first: Reg, second: Reg, split: int) -> bool {
    &&& first != second
    &&& forall|i: int|
        0 <= i < script.len() ==> match #[trigger] script[i] {
            Step::Read { reg: r, .. } => if i < split {
                r == first
            } else {
                r == second
            },
            Step::Poll { reg: r, .. } => r != first && r != second,
            _ => true,
        }
}

/// What such a script has kept is what the bus gave to its reads of the
/// first register, followed by what it gave to its reads of the second.
pub proof fn lemma_kept_in_turn(
    script: Seq<Step>,
    data: Seq<u32>,
    first: Reg,
    second: Reg,
    split: int,
    inputs: Seq<u32>,
)
    requires
        script_wf(script, data),
        keeps_in_turn(script, first, second, split),
    ensures
        state_wf(script, replay(script, data, inputs)),
        ({
            let s = replay(script, data, inputs);
            let seen = accesses(script, data, inputs);
            &&& s.captured == reads_of(seen, first) + reads_of(seen, second)
            &&& s.stage == Stage::Run && s.pc < split ==> reads_of(seen, second)
                == Seq::<u32>::empty()
        }),
    decreases inputs.len(),
{
    if inputs.len() == 0 {
        assert(Seq::<u32>::empty() + Seq::<u32>::empty() =~= Seq::<u32>::empty());
    } else {
        let before = inputs.drop_last();
        let v = inputs.last();
        let s = replay(script, data, before);
        lemma_kept_in_turn(script, data, first, second, split, before);
        let t = absorb(script, s, v);
        lemma_absorb(script, data, s, v);
        lemma_emit(script, data, t);
        let seen = accesses(script, data, before);
        let read = read_seen(script, s, v);
        let op = op_seen(next(script, data, s, v).1);
        lemma_reads_of_join(seen, read, first);
        lemma_reads_of_join(seen + read, op, first);
        lemma_reads_of_join(seen, read, second);
        lemma_reads_of_join(seen + read, op, second);
        assert(reads_of(op, first) =~= Seq::<u32>::empty() && reads_of(op, second)
            =~= Seq::<u32>::empty()) by {
            reveal_with_fuel(reads_of, 2);
            if op.len() > 0 {
                assert(op.drop_last() =~= Seq::<Access>::empty());
            }
        }
        let kept_now = s.awaiting && script[s.pc] is Read;
        assert(reads_of(read, first) =~= if kept_now && s.pc < split {
            seq![v]
        } else {
            Seq::empty()
        }) by {
            reveal_with_fuel(reads_of, 2);
            if read.len() > 0 {
                assert(read.drop_last() =~= Seq::<Access>::empty());
            }
        }
        assert(reads_of(read, second) =~= if kept_now && s.pc >= split {
            seq![v]
        } else {
            Seq::empty()
        }) by {
            reveal_with_fuel(reads_of, 2);
            if read.len() > 0 {
                assert(read.drop_last() =~= Seq::<Access>::empty());
            }
        }
        let all = accesses(script, data, inputs);
        let u = replay(script, data, inputs);
        assert(reads_of(all, first) =~= reads_of(seen, first) + reads_of(read, first));
        assert(reads_of(all, second) =~= reads_of(seen, second) + reads_of(read, second));
        assert(u.captured =~= if kept_now {
            s.captured.push(v)
        } else {
            s.captured
        });
        if kept_now {
            if s.pc < split {
                assert(reads_of(seen, second) =~= Seq::<u32>::empty());
                assert(u.captured =~= reads_of(all, first) + reads_of(all, second));
            } else {
                assert(u.captured =~= reads_of(all, first) + reads_of(all, second));
            }
        } else {
            assert(u.captured =~= reads_of(all, first) + reads_of(all, second));
        }
    }
}

/// The values written to `reg`, in order.
pub open spec fn writes_of(seen: Seq<Access>, reg: Reg) -> Seq<u32>
    decreases seen.len(),
{
    if seen.len() == 0 {
        Seq::empty()
    } else {
        writes_of(seen.drop_last(), reg) + match seen.last() {
            Access::Write { reg: r, value } => if r == reg {
                seq![value]
            } else {
                Seq::empty()
            },
            _ => Seq::empty(),
        }
    }
}

/// The writes of a record are the writes of its parts, one after the
/// other.
pub proof fn lemma_writes_of_join(a: Seq<Access>, b: Seq<Access>, reg: Reg)
    ensures
        writes_of(a + b, reg) == writes_of(a, reg) + writes_of(b, reg),
    decreases b.len(),
{
    if b.len() == 0 {
        assert(a + b =~= a);
        assert(writes_of(a, reg) + Seq::<u32>::empty() =~= writes_of(a, reg));
    } else {
        assert((a + b).drop_last() =~= a + b.drop_last());
        assert((a + b).last() == b.last());
        lemma_writes_of_join(a, b.drop_last(), reg);
        let tail = match b.last() {
            Access::Write { reg: r, value } => if r == reg {
                seq![value]
            } else {
                Seq::empty()
            },
            _ => Seq::empty(),
        };
        assert(writes_of(a, reg) + (writes_of(b.drop_last(), reg) + tail) =~= writes_of(a, reg)
            + writes_of(b.drop_last(), reg) + tail);
    }
}

/// The values that a step writes to `reg` when it is played through.
pub open spec fn step_writes(step: Step, data: Seq<u32>, reg: Reg) -> Seq<u32> {
    match step {
        Step::Write { reg: r, value } => if r == reg {
            seq![value]
        } else {
            Seq::empty()
        },
        Step::WriteData { reg: r, start, count } => if r == reg {
            data.subrange(start as int, start as int + count as int)
        } else {
            Seq::empty()
        },
        _ => Seq::empty(),
    }
}

/// The values that a script writes to `reg` when it is played through, in
/// order.
pub open spec fn writes_in(script: Seq<Step>, data: Seq<u32>, reg: Reg) -> Seq<u32>
    decreases script.len(),
{
    if script.len() == 0 {
        Seq::empty()
    } else {
        writes_in(script.drop_last(), data, reg) + step_writes(script.last(), data, reg)
    }
}

/// What a script writes is what its parts write, one after the other.
pub proof fn lemma_writes_in_join(a: Seq<Step>, b: Seq<Step>, data: Seq<u32>, reg: Reg)
    ensures
        writes_in(a + b, data, reg) == writes_in(a, data, reg) + writes_in(b, data, reg),
    decreases b.len(),
{
    if b.len() == 0 {
        assert(a + b =~= a);
        assert(writes_in(a, data, reg) + Seq::<u32>::empty() =~= writes_in(a, data, reg));
    } else {
        assert((a + b).drop_last() =~= a + b.drop_last());
        assert((a + b).last() == b.last());
        lemma_writes_in_join(a, b.drop_last(), data, reg);
        let tail = step_writes(b.last(), data, reg);
        assert(writes_in(a, data, reg) + (writes_in(b.drop_last(), data, reg) + tail)
            =~= writes_in(a, data, reg) + writes_in(b.drop_last(), data, reg) + tail);
    }
}

/// The values that the current step has written to `reg` so far.
pub open spec fn partial_writes(script: Seq<Step>, data: Seq<u32>, reg: Reg, s: State) -> Seq<u32> {
    if 0 <= s.pc < script.len() {
        match script[s.pc] {
            Step::WriteData { reg: r, start, .. } => if r == reg {
                data.subrange(start as int, start as int + s.sub)
            } else {
                Seq::empty()
            },
            _ => Seq::empty(),
        }
    } else {
        Seq::empty()
    }
}

/// The values that a machine in state `s` has written to `reg`, as the
/// script has it: what the steps behind it write, and what the current
/// step has written so far.
pub open spec fn written(script: Seq<Step>, data: Seq<u32>, reg: Reg, s: State) -> Seq<u32> {
    writes_in(script.subrange(0, s.pc), data, reg) + partial_writes(script, data, reg, s)
}

proof fn lemma_step_behind(script: Seq<Step>, data: Seq<u32>, reg: Reg, pc: int)
    requires
        0 <= pc < script.len(),
    ensures
        writes_in(script.subrange(0, pc + 1), data, reg) == writes_in(
            script.subrange(0, pc),
            data,
            reg,
        ) + step_writes(script[pc], data, reg),
{
    assert(script.subrange(0, pc + 1).drop_last() =~= script.subrange(0, pc));
    assert(script.subrange(0, pc + 1).last() == script[pc]);
}

proof fn lemma_absorb_writes(script: Seq<Step>, data: Seq<u32>, reg: Reg, s: State, v: u32)
    requires
        script_wf(script, data),
        state_wf(script, s),
        absorb(script, s, v).error is None,
    ensures
        written(script, data, reg, absorb(script, s, v)) == written(script, data, reg, s),
{
    let t = absorb(script, s, v);
    if t.pc != s.pc {
        assert(t.pc == s.pc + 1);
        lemma_step_behind(script, data, reg, s.pc);
        assert(step_writes(script[s.pc], data, reg) =~= Seq::<u32>::empty());
        assert(partial_writes(script, data, reg, s) =~= Seq::<u32>::empty());
        if t.pc < script.len() {
            assert(data.subrange(0, 0) =~= Seq::<u32>::empty());
            match script[t.pc] {
                Step::WriteData { start, .. } => {
                    assert(data.subrange(start as int, start as int + 0) =~= Seq::<u32>::empty());
                },
                _ => {},
            }
        }
        assert(partial_writes(script, data, reg, t) =~= Seq::<u32>::empty());
        assert(written(script, data, reg, t) =~= written(script, data, reg, s));
    } else {
        assert(partial_writes(script, data, reg, t) =~= partial_writes(script, data, reg, s));
    }
}

proof fn lemma_emit_writes(script: Seq<Step>, data: Seq<u32>, reg: Reg, t: State)
    requires
        script_wf(script, data),
        state_wf(script, t),
        !t.awaiting,
        t.error is None,
    ensures
        written(script, data, reg, emit(script, data, t).0) == written(script, data, reg, t)
            + writes_of(op_seen(emit(script, data, t).1), reg),
{
    let u = emit(script, data, t).0;
    let op = emit(script, data, t).1;
    assert(writes_of(op_seen(op), reg) =~= match op {
        BusOp::Write { reg: r, value } => if r == reg {
            seq![value]
        } else {
            Seq::empty()
        },
        _ => Seq::empty(),
    }) by {
        reveal_with_fuel(writes_of, 2);
        if op_seen(op).len() > 0 {
            assert(op_seen(op).drop_last() =~= Seq::<Access>::empty());
        }
    }
    if t.stage == Stage::Run && t.pc < script.len() {
        assert(step_wf(script[t.pc], data.len() as int));
        if u.pc == t.pc + 1 {
            lemma_step_behind(script, data, reg, t.pc);
            if u.pc < script.len() {
                match script[u.pc] {
                    Step::WriteData { start, .. } => {
                        assert(data.subrange(start as int, start as int + 0)
                            =~= Seq::<u32>::empty());
                    },
                    _ => {},
                }
            }
            assert(partial_writes(script, data, reg, u) =~= Seq::<u32>::empty());
        }
        match script[t.pc] {
            Step::WriteData { reg: r, start, count } => {
                assert(op == BusOp::Write { reg: r, value: data[start + t.sub] });
                if r == reg {
                    assert(data.subrange(start as int, start as int + t.sub).push(
                        data[start + t.sub],
                    ) =~= data.subrange(start as int, start as int + t.sub + 1));
                }
            },
            Step::Write { .. } => {
                assert(partial_writes(script, data, reg, t) =~= Seq::<u32>::empty());
            },
            _ => {},
        }
        assert(written(script, data, reg, u) =~= written(script, data, reg, t) + writes_of(
            op_seen(op),
            reg,
        ));
    } else {
        assert(written(script, data, reg, u) =~= written(script, data, reg, t)
            + Seq::<u32>::empty());
    }
}

/// While a script is played and has not failed, what the bus has seen
/// written to a register is what the steps so far write to it.
pub proof fn lemma_writes_follow(script: Seq<Step>, data: Seq<u32>, reg: Reg, inputs: Seq<u32>)
    requires
        script_wf(script, data),
    ensures
        state_wf(script, replay(script, data, inputs)),
        ({
            let s = replay(script, data, inputs);
            s.error is None ==> writes_of(accesses(script, data, inputs), reg) == written(
                script,
                data,
                reg,
                s,
            )
        }),
    decreases inputs.len(),
{
    if inputs.len() == 0 {
        assert(script.subrange(0, 0) =~= Seq::<Step>::empty());
        assert(partial_writes(script, data, reg, start()) =~= Seq::<u32>::empty()) by {
            if script.len() > 0 {
                match script[0] {
                    Step::WriteData { start, .. } => {
                        assert(data.subrange(start as int, start as int + 0)
                            =~= Seq::<u32>::empty());
                    },
                    _ => {},
                }
            }
        }
        assert(written(script, data, reg, start()) =~= Seq::<u32>::empty());
    } else {
        let before = inputs.drop_last();
        let v = inputs.last();
        let s = replay(script, data, before);
        lemma_writes_follow(script, data, reg, before);
        let t = absorb(script, s, v);
        lemma_absorb(script, data, s, v);
        lemma_emit(script, data, t);
        let u = emit(script, data, t).0;
        let op = emit(script, data, t).1;
        let seen = accesses(script, data, before);
        let read = read_seen(script, s, v);
        lemma_writes_of_join(seen, read, reg);
        lemma_writes_of_join(seen + read, op_seen(op), reg);
        assert(writes_of(read, reg) =~= Seq::<u32>::empty()) by {
            reveal_with_fuel(writes_of, 2);
            if read.len() > 0 {
                assert(read.drop_last() =~= Seq::<Access>::empty());
            }
        }
        if u.error is None {
            lemma_absorb_writes(script, data, reg, s, v);
            lemma_emit_writes(script, data, reg, t);
            assert(writes_of(seen, reg) + Seq::<u32>::empty() =~= writes_of(seen, reg));
        }
    }
}

/// What a script that has run through has written to a register is what
/// the script writes to it: the bus has seen those values written, in that
/// order, and no others.
pub proof fn lemma_writes_complete(
    script: Seq<Step>,
    data: Seq<u32>,
    reg: Reg,
    before: Seq<Access>,
    after: Seq<Access>,
    kept: Seq<u32>,
)
    requires
        script_wf(script, data),
        played(script, data, before, after, Ok(kept)),
    ensures
        before.len() <= after.len(),
        after.subrange(0, before.len() as int) == before,
        writes_of(after.subrange(before.len() as int, after.len() as int), reg) == writes_in(
            script,
            data,
            reg,
        ),
{
    let inputs = choose|inputs: Seq<u32>| #[trigger]
        yields(script, data, inputs, Ok(kept)) && after == before + accesses(script, data, inputs);
    lemma_writes_follow(script, data, reg, inputs);
    lemma_ended_at_end(script, data, inputs);
    let s = replay(script, data, inputs);
    assert(script.subrange(0, s.pc) =~= script);
    assert(partial_writes(script, data, reg, s) =~= Seq::<u32>::empty());
    assert(after.subrange(before.len() as int, after.len() as int) =~= accesses(
        script,
        data,
        inputs,
    ));
    assert(after.subrange(0, before.len() as int) =~= before);
    assert(writes_in(script, data, reg) + Seq::<u32>::empty() =~= writes_in(script, data, reg));
}

/// A script that has ended without an error has been played to its end.
pub proof fn lemma_ended_at_end(script: Seq<Step>, data: Seq<u32>, inputs: Seq<u32>)
    requires
        script_wf(script, data),
    ensures
        state_wf(script, replay(script, data, inputs)),
        ({
            let s = replay(script, data, inputs);
            s.stage == Stage::Done && s.error is None ==> s.pc == script.len()
        }),
    decreases inputs.len(),
{
    if inputs.len() > 0 {
        let before = inputs.drop_last();
        let s = replay(script, data, before);
        lemma_ended_at_end(script, data, before);
        lemma_absorb(script, data, s, inputs.last());
        lemma_emit(script, data, absorb(script, s, inputs.last()));
    }
}

/// Every script ends: from any state that the script allows, each step
/// before the end burns fuel, and the fuel at the start is no more than
/// the cost of the script and three.
pub proof fn lemma_bounded(script: Seq<Step>, data: Seq<u32>, s: State, input: u32)
    requires
        script_wf(script, data),
        state_wf(script, s),
    ensures
        state_wf(script, next(script, data, s, input).0),
        0 <= fuel(script, next(script, data, s, input).0),
        s.stage != Stage::Done ==> fuel(script, next(script, data, s, input).0) < fuel(script, s),
        fuel(script, start()) <= 3 + cost_from(script, 0),
{
    lemma_absorb(script, data, s, input);
    lemma_emit(script, data, absorb(script, s, input));
}

/// The bus sees a script in its order: a step never moves the machine
/// back, and a machine that stands at a write with nothing pending asks
/// for exactly that write and moves past it.
pub proof fn lemma_in_order(script: Seq<Step>, data: Seq<u32>, s: State, input: u32)
    requires
        script_wf(script, data),
        state_wf(script, s),
    ensures
        next(script, data, s, input).0.pc >= s.pc,
        s.stage == Stage::Run && !s.awaiting && s.pc < script.len() ==> (script[s.pc] matches Step::Write {
            reg,
            value,
        } ==> next(script, data, s, input).1 == (BusOp::Write { reg, value }) && next(
            script,
            data,
            s,
            input,
        ).0.pc == s.pc + 1),
{
}

/// A script that opens with a single look at a register is refused when
/// the look fails: the script ends with the poll's error after that one
/// read, and asks for nothing else, no write among it.
pub proof fn lemma_gate_refuses(script: Seq<Step>, data: Seq<u32>, first: u32, v: u32)
    requires
        script.len() > 0,
        script[0] is Poll,
        script[0]->budget == 1,
        !script[0]->recover,
        v & script[0]->fault == 0,
        v & script[0]->mask != script[0]->want,
    ensures
        ({
            let a = next(script, data, start(), first);
            let b = next(script, data, a.0, v);
            &&& a.1 == BusOp::Read { reg: script[0]->Poll_reg }
            &&& b.1 == BusOp::Done
            &&& b.0.stage == Stage::Done
            &&& b.0.error == Some(script[0]->on_timeout)
        }),
        yields(script, data, seq![first, v], Err(script[0]->on_timeout)),
        accesses(script, data, seq![first, v]) == seq![
            Access::Read { reg: script[0]->Poll_reg, value: v },
        ],
{
    let inputs = seq![first, v];
    assert(inputs.drop_last() =~= seq![first]);
    assert(seq![first].drop_last() =~= Seq::<u32>::empty());
    assert(replay(script, data, Seq::<u32>::empty()) == start());
    assert(replay(script, data, seq![first]) == next(script, data, start(), first).0);
    assert(replay(script, data, inputs) == next(
        script,
        data,
        replay(script, data, seq![first]),
        v,
    ).0);
    assert(accesses(script, data, Seq::<u32>::empty()) =~= Seq::<Access>::empty());
    assert(accesses(script, data, seq![first]) =~= Seq::<Access>::empty());
    assert(accesses(script, data, inputs) =~= seq![
        Access::Read { reg: script[0]->Poll_reg, value: v },
    ]);
}

/// A machine playing one script.
pub struct Machine {
    script: Vec<Step>,
    data: Vec<u32>,
    pc: usize,
    sub: usize,
    rested: bool,
    awaiting: bool,
    stage: Stage,
    error: Option<SdError>,
    captured: Vec<u32>,
}

impl View for Machine {
    type V = State;

    closed spec fn view(&self) -> State {
        State {
            pc: self.pc as int,
            sub: self.sub as int,
            rested: self.rested,
            awaiting: self.awaiting,
            stage: self.stage,
            error: self.error,
            captured: self.captured@,
        }
    }
}

/// Checks that a script is well formed for data of `data_len` words.
pub fn check_script(script: &Vec<Step>, data_len: usize) -> (ok: bool)
    ensures
        ok <==> steps_wf(script@, data_len as int),
{
    let mut i: usize = 0;
    while i < script.len()
        invariant
            i <= script.len(),
            forall|j: int| 0 <= j < i ==> step_wf(#[trigger] script@[j], data_len as int),
        decreases script.len() - i,
    {
        let ok = match script[i] {
            Step::WriteData { count, start, .. } => count >= 1 && start <= data_len && count
                <= data_len - start,
            Step::Read { count, .. } => count >= 1,
            Step::Poll { budget, .. } => budget >= 1,
            _ => true,
        };
        if !ok {
            assert(!step_wf(script@[i as int], data_len as int));
            return false;
        }
        i += 1;
    }
    true
}

impl Machine {
    /// The script being played.
    pub closed spec fn script(&self) -> Seq<Step> {
        self.script@
    }

    /// The data words the script writes.
    pub closed spec fn data(&self) -> Seq<u32> {
        self.data@
    }

    /// The machine is in a state its script allows.
    pub closed spec fn wf(&self) -> bool {
        &&& script_wf(self.script@, self.data@)
        &&& state_wf(self.script@, self@)
    }

    /// A machine at the start of `script`, or `InvalidArgument` where the
    /// script is not well formed for `data`.
    pub fn new(script: Vec<Step>, data: Vec<u32>) -> (r: Result<Machine, SdError>)
        ensures
            match r {
                Ok(m) => script_wf(script@, data@) && m.wf() && m.script() == script@ && m.data()
                    == data@ && m@ == start(),
                Err(e) => !script_wf(script@, data@) && e == SdError::InvalidArgument,
            },
    {
        if !check_script(&script, data.len()) {
            return Err(SdError::InvalidArgument);
        }
        let m = Machine {
            script,
            data,
            pc: 0,
            sub: 0,
            rested: false,
            awaiting: false,
            stage: Stage::Run,
            error: None,
            captured: Vec::new(),
        };
        assert(m@ =~= start());
        assert(m@.pc < m.script@.len() ==> step_wf(m.script@[0], m.data@.len() as int));
        Ok(m)
    }

    /// A machine that is well formed plays a well-formed script and is in
    /// a state the script allows.
    pub proof fn lemma_wf(&self)
        requires
            self.wf(),
        ensures
            script_wf(self.script(), self.data()),
            state_wf(self.script(), self@),
    {
    }

    /// Whether the script has ended.
    pub fn finished(&self) -> (b: bool)
        ensures
            b == (self@.stage == Stage::Done),
    {
        match self.stage {
            Stage::Done => true,
            _ => false,
        }
    }

    fn take_in(&mut self, input: u32)
        requires
            old(self).wf(),
        ensures
            final(self).wf(),
            final(self).script() == old(self).script(),
            final(self).data() == old(self).data(),
            final(self)@ == absorb(old(self).script(), old(self)@, input),
            !final(self)@.awaiting,
            fuel(final(self).script(), final(self)@) <= fuel(old(self).script(), old(self)@),
    {
        proof {
            lemma_absorb(self.script@, self.data@, self@, input);
        }
        let running = match self.stage {
            Stage::Run => true,
            _ => false,
        };
        if !running || !self.awaiting || self.pc >= self.script.len() {
            return ;
        }
        let step = self.script[self.pc];
        assert(step_wf(step, self.data@.len() as int));
        match step {
            Step::Read { count, .. } => {
                self.captured.push(input);
                self.awaiting = false;
                if self.sub + 1 >= count {
                    self.pc = self.pc + 1;
                    self.sub = 0;
                } else {
                    self.sub = self.sub + 1;
                }
            },
            Step::Poll { mask, want, fault, budget, on_timeout, recover, .. } => {
                self.awaiting = false;
                self.rested = false;
                if input & fault != 0 {
                    self.fail(classify_fault(input), recover);
                } else if input & mask == want {
                    self.pc = self.pc + 1;
                    self.sub = 0;
                } else if self.sub + 1 >= budget as usize {
                    self.fail(on_timeout, recover);
                } else {
                    self.sub = self.sub + 1;
                }
            },
            _ => {
                self.awaiting = false;
            },
        }
        assert(self@ =~= absorb(old(self).script(), old(self)@, input));
    }

    fn fail(&mut self, e: SdError, recover: bool)
        ensures
            final(self).script == old(self).script,
            final(self).data == old(self).data,
            final(self)@ == abort(old(self)@, e, recover),
    {
        self.stage = if recover { Stage::Reset } else { Stage::Done };
        self.error = Some(e);
        self.awaiting = false;
        self.rested = false;
        self.sub = 0;
    }

    fn put_out(&mut self) -> (op: BusOp)
        requires
            old(self).wf(),
            !old(self)@.awaiting,
        ensures
            final(self).wf(),
            final(self).script() == old(self).script(),
            final(self).data() == old(self).data(),
            (final(self)@, op) == emit(old(self).script(), old(self).data(), old(self)@),
            old(self)@.stage != Stage::Done ==> fuel(final(self).script(), final(self)@) < fuel(
                old(self).script(),
                old(self)@,
            ),
            0 <= fuel(final(self).script(), final(self)@),
            op is Done ==> final(self)@.stage == Stage::Done,
    {
        proof {
            lemma_emit(self.script@, self.data@, self@);
        }
        let op = match self.stage {
            Stage::Done => BusOp::Done,
            Stage::Reset => {
                self.stage = Stage::Clear;
                BusOp::Write { reg: Reg::SoftwareReset, value: RESET_LINES }
            },
            Stage::Clear => {
                self.stage = Stage::Done;
                BusOp::Write { reg: Reg::IntStatus, value: INT_ALL }
            },
            Stage::Run => {
                if self.pc >= self.script.len() {
                    self.stage = Stage::Done;
                    BusOp::Done
                } else {
                    let step = self.script[self.pc];
                    assert(step_wf(step, self.data@.len() as int));
                    match step {
                        Step::Write { reg, value } => {
                            self.pc = self.pc + 1;
                            BusOp::Write { reg, value }
                        },
                        Step::Delay { us } => {
                            self.pc = self.pc + 1;
                            BusOp::Delay { us }
                        },
                        Step::WriteData { reg, start, count } => {
                            let len: usize = self.data.len();
                            assert(start + count <= len);
                            let value = self.data[start + self.sub];
                            if self.sub + 1 >= count {
                                self.pc = self.pc + 1;
                                self.sub = 0;
                            } else {
                                self.sub = self.sub + 1;
                            }
                            BusOp::Write { reg, value }
                        },
                        Step::Read { reg, .. } => {
                            self.awaiting = true;
                            BusOp::Read { reg }
                        },
                        Step::Poll { reg, interval_us, .. } => {
                            if self.sub > 0 && !self.rested {
                                self.rested = true;
                                BusOp::Delay { us: interval_us }
                            } else {
                                self.awaiting = true;
                                BusOp::Read { reg }
                            }
                        },
                    }
                }
            },
        };
        assert((self@, op) =~= emit(old(self).script(), old(self).data(), old(self)@));
        op
    }

    /// Advances the machine by one step.  `input` is the value of the read
    /// that the previous step asked for; after any other operation it is
    /// ignored.  Each step of a script that has not ended burns fuel, so a
    /// script ends after finitely many steps whatever the inputs are.
    pub fn step(&mut self, input: u32) -> (op: BusOp)
        requires
            old(self).wf(),
        ensures
            final(self).wf(),
            final(self).script() == old(self).script(),
            final(self).data() == old(self).data(),
            (final(self)@, op) == next(old(self).script(), old(self).data(), old(self)@, input),
            old(self)@.stage != Stage::Done ==> fuel(final(self).script(), final(self)@) < fuel(
                old(self).script(),
                old(self)@,
            ),
            0 <= fuel(final(self).script(), final(self)@),
            op is Done ==> final(self)@.stage == Stage::Done,
    {
        self.take_in(input);
        self.put_out()
    }

    /// What the script has yielded: its error, or the values it kept.
    pub fn into_result(self) -> (r: Result<Vec<u32>, SdError>)
        ensures
            match r {
                Ok(words) => outcome(self@) == Ok::<Seq<u32>, SdError>(words@),
                Err(e) => outcome(self@) == Err::<Seq<u32>, SdError>(e),
            },
    {
        match self.error {
            Some(e) => Err(e),
            None => Ok(self.captured),
        }
    }
}

/// The view of a run's result.
pub open spec fn result_view(r: Result<Vec<u32>, SdError>) -> Result<Seq<u32>, SdError> {
    match r {
        Ok(words) => Ok(words@),
        Err(e) => Err(e),
    }
}

/// Plays a script on the bus to its end.  A script that is not well formed
/// is refused with `InvalidArgument` before anything touches the bus.
/// Otherwise the result is what the script yields for the values that the
/// bus returned, and the bus has seen the operations of the script for
/// those values, each once and in order, and nothing else.
pub fn run<B: Bus, K: Kernel>(bus: &mut Traced<B>, script: Vec<Step>, data: Vec<u32>) -> (r: Result<
    Vec<u32>,
    SdError,
>)
    ensures
        !script_wf(script@, data@) ==> r == Err::<Vec<u32>, SdError>(SdError::InvalidArgument)
            && *final(bus) == *old(bus),
        script_wf(script@, data@) ==> played(
            script@,
            data@,
            old(bus).seen(),
            final(bus).seen(),
            result_view(r),
        ),
{
    let mut m = match Machine::new(script, data) {
        Ok(m) => m,
        Err(e) => {
            return Err(e);
        },
    };
    let ghost mut inputs: Seq<u32> = Seq::empty();
    let mut input: u32 = 0;
    assert(old(bus).seen() + Seq::<Access>::empty() =~= old(bus).seen());
    loop
        invariant
            m.wf(),
            m.script() == script@,
            m.data() == data@,
            m@ == replay(script@, data@, inputs),
            bus.seen() == old(bus).seen() + accesses(script@, data@, inputs) + read_seen(
                script@,
                m@,
                input,
            ),
        ensures
            m@ == replay(script@, data@, inputs),
            m@.stage == Stage::Done,
            bus.seen() == old(bus).seen() + accesses(script@, data@, inputs),
        decreases fuel(m.script(), m@),
    {
        let ghost before = m@;
        let ghost seen = bus.seen();
        let op = m.step(input);
        proof {
            m.lemma_wf();
            assert(inputs.push(input).drop_last() =~= inputs);
            let base = old(bus).seen() + accesses(script@, data@, inputs);
            let longer = inputs.push(input);
            assert(accesses(script@, data@, longer) == accesses(script@, data@, inputs) + read_seen(
                script@,
                before,
                input,
            ) + op_seen(op));
            assert(old(bus).seen() + accesses(script@, data@, longer) =~= seen + op_seen(op));
            inputs = longer;
        }
        input = 0;
        match op {
            BusOp::Read { reg } => {
                input = bus.read(reg);
                assert(m@.awaiting && pending_reg(script@, m@) == reg);
            },
            BusOp::Write { reg, value } => {
                bus.write(reg, value);
                assert(!m@.awaiting);
            },
            BusOp::Delay { us } => {
                bus.sleep::<K>(us);
                assert(!m@.awaiting);
            },
            BusOp::Done => {
                assert(!m@.awaiting);
                assert(bus.seen() + Seq::<Access>::empty() =~= bus.seen());
                break ;
            },
        }
        assert(bus.seen() =~= old(bus).seen() + accesses(script@, data@, inputs) + read_seen(
            script@,
            m@,
            input,
        ));
    }
    let r = m.into_result();
    assert(yields(script@, data@, inputs, result_view(r)));
    r
}

/// What a script without kept values returns.
pub open spec fn unit_result(ran: Result<Seq<u32>, SdError>) -> Result<(), SdError> {
    match ran {
        Ok(_) => Ok(()),
        Err(e) => Err(e),
    }
}

/// `r` is what a script that needs no data returns for the answers that
/// the bus gave, with the record of the bus before and after.
pub open spec fn done(
    script: Seq<Step>,
    before: Seq<Access>,
    after: Seq<Access>,
    r: Result<(), SdError>,
) -> bool {
    exists|ran: Result<Seq<u32>, SdError>| #[trigger]
        played(script, Seq::<u32>::empty(), before, after, ran) && r == unit_result(ran)
}

/// Plays a script that needs no data and keeps nothing of interest.
pub fn run_plain<B: Bus, K: Kernel>(bus: &mut Traced<B>, script: Vec<Step>) -> (r: Result<
    (),
    SdError,
>)
    requires
        steps_wf(script@, 0),
    ensures
        done(script@, old(bus).seen(), final(bus).seen(), r),
{
    let ran = run::<B, K>(bus, script, Vec::new());
    assert(played(
        script@,
        Seq::<u32>::empty(),
        old(bus).seen(),
        bus.seen(),
        result_view(ran),
    ));
    match ran {
        Ok(_) => Ok(()),
        Err(e) => Err(e),
    }
}

} // verus!
