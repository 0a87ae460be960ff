//! Tuning of the sampling point: the bounded run of tuning commands during
//! which the controller sweeps its sampling clock.

use crate::command::{command_word, encode_command, idle_check, push_prologue, Command, ResponseType};
use crate::err::SdError;
use crate::regs::{
    Access, Bus, Kernel, Reg, Traced, CTRL2_EXECUTE_TUNING, INT_ALL, INT_BUFFER_READ_READY,
    MODE_READ,
};
use crate::script::{
    accesses, keeps_only, lemma_kept_are_reads, lemma_reads_of_seen, played, result_view, run,
    steps_wf, yields, Step,
};
use crate::signal::{
    judge_tuning, still_sweeping, tuning_after, tuning_result, Sample, Tuning, TUNING_ATTEMPTS,
};
use vstd::prelude::*;

verus! {

/// Reads of the interrupt status that one tuning block may take.
pub const TUNING_POLLS: u32 = 1_500;
/// Microseconds between two such reads.
pub const TUNING_INTERVAL_US: u64 = 100;

/// The tuning command with the given index.
pub open spec fn tuning_command(opcode: u8) -> Command {
    Command { opcode, argument: 0, response: ResponseType::R1, data: true, app: false }
}

/// The bounded wait for the tuning block.  Faults of the data line are
/// part of a sweep and end no wait.
pub open spec fn tuning_wait() -> Step {
    Step::Poll {
        reg: Reg::IntStatus,
        mask: INT_BUFFER_READ_READY,
        want: INT_BUFFER_READ_READY,
        fault: 0,
        budget: TUNING_POLLS,
        interval_us: TUNING_INTERVAL_US,
        on_timeout: SdError::DataTimeout,
        recover: true,
    }
}

/// One tuning command: issue it for a block of `block_len` bytes, wait for
/// the block, clear the status, and read host control 2.
pub open spec fn tuning_script(opcode: u8, block_len: u32) -> Seq<Step> {
    seq![
        idle_check(tuning_command(opcode)),
        Step::Write { reg: Reg::IntStatus, value: INT_ALL },
        Step::Write { reg: Reg::BlockSize, value: block_len },
        Step::Write { reg: Reg::BlockCount, value: 1 },
        Step::Write { reg: Reg::Argument, value: 0 },
        Step::Write { reg: Reg::Command, value: command_word(tuning_command(opcode), MODE_READ) },
        tuning_wait(),
        Step::Write { reg: Reg::IntStatus, value: INT_ALL },
        Step::Read { reg: Reg::HostControl2, count: 1 },
    ]
}

/// Builds the script of one tuning command.
pub fn build_tuning_script(opcode: u8, block_len: u32) -> (script: Vec<Step>)
    ensures
        script@ == tuning_script(opcode, block_len),
        steps_wf(script@, 0),
{
    let cmd = Command::with_data(opcode, 0, ResponseType::R1);
    let mut script: Vec<Step> = Vec::new();
    push_prologue(&mut script, &cmd);
    script.push(Step::Write { reg: Reg::BlockSize, value: block_len });
    script.push(Step::Write { reg: Reg::BlockCount, value: 1 });
    script.push(Step::Write { reg: Reg::Argument, value: 0 });
    script.push(Step::Write { reg: Reg::Command, value: encode_command(&cmd, MODE_READ) });
    script.push(
        Step::Poll {
            reg: Reg::IntStatus,
            mask: INT_BUFFER_READ_READY,
            want: INT_BUFFER_READ_READY,
            fault: 0,
            budget: TUNING_POLLS,
            interval_us: TUNING_INTERVAL_US,
            on_timeout: SdError::DataTimeout,
            recover: true,
        },
    );
    script.push(Step::Write { reg: Reg::IntStatus, value: INT_ALL });
    script.push(Step::Read { reg: Reg::HostControl2, count: 1 });
    assert(script@ =~= tuning_script(opcode, block_len));
    script
}

/// What one tuning command has shown, from what its script yielded.
pub open spec fn sample_of(ran: Result<Seq<u32>, SdError>) -> Sample {
    match ran {
        Ok(words) => if words.len() == 1 {
            Sample::Control(words[0])
        } else {
            Sample::Missed(SdError::InvalidResponse)
        },
        Err(e) => Sample::Missed(e),
    }
}

/// The sample is what a tuning command has shown for the answers that the
/// bus gave, with the record of the bus before and after.
pub open spec fn shown(
    opcode: u8,
    block_len: u32,
    before: Seq<Access>,
    after: Seq<Access>,
    sample: Sample,
) -> bool {
    exists|ran: Result<Seq<u32>, SdError>| #[trigger]
        played(tuning_script(opcode, block_len), Seq::<u32>::empty(), before, after, ran)
            && sample == sample_of(ran)
}

/// The samples are what the tuning commands of a sweep have shown, one
/// after the other, with the record of the bus before the first and after
/// the last.
pub open spec fn swept(
    opcode: u8,
    block_len: u32,
    samples: Seq<Sample>,
    before: Seq<Access>,
    after: Seq<Access>,
) -> bool
    decreases samples.len(),
{
    if samples.len() == 0 {
        after == before
    } else {
        exists|mid: Seq<Access>|
            swept(opcode, block_len, samples.drop_last(), before, mid) && #[trigger] shown(
                opcode,
                block_len,
                mid,
                after,
                samples.last(),
            )
    }
}

/// The write that starts a sweep.
pub open spec fn sweep_start(control: u32) -> Access {
    Access::Write { reg: Reg::HostControl2, value: control | CTRL2_EXECUTE_TUNING }
}

/// The write that takes the tuning bits back after a failed run.
pub open spec fn sweep_end(control: u32) -> Access {
    Access::Write { reg: Reg::HostControl2, value: control }
}

/// `r` is what a tuning run returns, with the record of the bus before and
/// after: the sweep is started, the tuning command is issued until the run
/// has ended, within its budget of commands, and a run that has failed
/// takes the tuning bits back.
pub open spec fn tuned_by(
    opcode: u8,
    block_len: u32,
    control: u32,
    before: Seq<Access>,
    after: Seq<Access>,
    r: Result<(), SdError>,
) -> bool {
    exists|samples: Seq<Sample>, end: Seq<Access>|
        {
            &&& #[trigger] swept(
                opcode,
                block_len,
                samples,
                before.push(sweep_start(control)),
                end,
            )
            &&& 1 <= samples.len() <= TUNING_ATTEMPTS
            &&& tuning_after(samples) != Tuning::Again
            &&& r == tuning_result(tuning_after(samples))
            &&& after == if r is Ok { end } else { end.push(sweep_end(control)) }
        }
}

/// Whether every read of host control 2 from position `from` of a record
/// on has shown the controller still sweeping.
pub open spec fn sweep_goes_on(seen: Seq<Access>, from: int) -> bool {
    forall|j: int|
        from <= j < seen.len() ==> (#[trigger] seen[j] matches Access::Read { reg, value } ==> reg
            == Reg::HostControl2 ==> value & CTRL2_EXECUTE_TUNING != 0)
}

proof fn lemma_sample_sweeping(
    opcode: u8,
    block_len: u32,
    before: Seq<Access>,
    after: Seq<Access>,
    sample: Sample,
)
    requires
        shown(opcode, block_len, before, after, sample),
        sweep_goes_on(after, before.len() as int),
    ensures
        still_sweeping(sample),
        before.len() <= after.len(),
        after.subrange(0, before.len() as int) == before,
{
    let script = tuning_script(opcode, block_len);
    let ran = choose|ran: Result<Seq<u32>, SdError>| #[trigger]
        played(script, Seq::<u32>::empty(), before, after, ran) && sample == sample_of(ran);
    let inputs = choose|inputs: Seq<u32>| #[trigger]
        yields(script, Seq::<u32>::empty(), inputs, ran) && after == before + accesses(
            script,
            Seq::<u32>::empty(),
            inputs,
        );
    let seen = accesses(script, Seq::<u32>::empty(), inputs);
    assert(after.subrange(0, before.len() as int) =~= before);
    match ran {
        Ok(words) => {
            if words.len() == 1 {
                assert(keeps_only(script, Reg::HostControl2));
                lemma_kept_are_reads(script, Seq::<u32>::empty(), Reg::HostControl2, inputs);
                lemma_reads_of_seen(seen, Reg::HostControl2, 0);
                let j = choose|j: int|
                    0 <= j < seen.len() && #[trigger] seen[j] == (Access::Read {
                        reg: Reg::HostControl2,
                        value: words[0],
                    });
                assert(after[before.len() + j] == seen[j]);
            }
        },
        Err(_) => {},
    }
}

proof fn lemma_swept_sweeping(
    opcode: u8,
    block_len: u32,
    samples: Seq<Sample>,
    before: Seq<Access>,
    after: Seq<Access>,
)
    requires
        swept(opcode, block_len, samples, before, after),
        sweep_goes_on(after, before.len() as int),
    ensures
        forall|i: int| 0 <= i < samples.len() ==> still_sweeping(#[trigger] samples[i]),
        before.len() <= after.len(),
        after.subrange(0, before.len() as int) == before,
    decreases samples.len(),
{
    if samples.len() > 0 {
        let mid = choose|mid: Seq<Access>|
            swept(opcode, block_len, samples.drop_last(), before, mid) && #[trigger] shown(
                opcode,
                block_len,
                mid,
                after,
                samples.last(),
            );
        assert(sweep_goes_on(after, mid.len() as int)) by {
            lemma_swept_prefix(opcode, block_len, samples.drop_last(), before, mid);
        }
        lemma_sample_sweeping(opcode, block_len, mid, after, samples.last());
        assert(sweep_goes_on(mid, before.len() as int)) by {
            lemma_swept_prefix(opcode, block_len, samples.drop_last(), before, mid);
            assert forall|j: int| before.len() <= j < mid.len() implies (#[trigger] mid[j] matches Access::Read {
                reg,
                value,
            } ==> reg == Reg::HostControl2 ==> value & CTRL2_EXECUTE_TUNING != 0) by {
                assert(mid[j] == after.subrange(0, mid.len() as int)[j]);
                assert(mid[j] == after[j]);
            }
        }
        lemma_swept_sweeping(opcode, block_len, samples.drop_last(), before, mid);
        assert forall|i: int| 0 <= i < samples.len() implies still_sweeping(#[trigger] samples[i]) by {
            if i < samples.len() - 1 {
                assert(samples[i] == samples.drop_last()[i]);
            }
        }
        assert(after.subrange(0, before.len() as int) =~= mid.subrange(0, before.len() as int)) by {
            assert(mid =~= after.subrange(0, mid.len() as int));
        }
    } else {
        assert(after.subrange(0, before.len() as int) =~= before);
    }
}

proof fn lemma_swept_prefix(
    opcode: u8,
    block_len: u32,
    samples: Seq<Sample>,
    before: Seq<Access>,
    after: Seq<Access>,
)
    requires
        swept(opcode, block_len, samples, before, after),
    ensures
        before.len() <= after.len(),
    decreases samples.len(),
{
    if samples.len() > 0 {
        let mid = choose|mid: Seq<Access>|
            swept(opcode, block_len, samples.drop_last(), before, mid) && #[trigger] shown(
                opcode,
                block_len,
                mid,
                after,
                samples.last(),
            );
        lemma_swept_prefix(opcode, block_len, samples.drop_last(), before, mid);
        let ran = choose|ran: Result<Seq<u32>, SdError>| #[trigger]
            played(tuning_script(opcode, block_len), Seq::<u32>::empty(), mid, after, ran)
                && samples.last() == sample_of(ran);
    }
}

/// A sweep that never converges fails the run with `TuningFailed`:
/// whenever a tuning run has been played on a bus, and every look at host
/// control 2 showed the controller still sweeping, that is its result, and
/// it comes after no more commands than the budget allows.
pub proof fn lemma_sweep_never_converges(
    opcode: u8,
    block_len: u32,
    control: u32,
    before: Seq<Access>,
    after: Seq<Access>,
    r: Result<(), SdError>,
)
    requires
        tuned_by(opcode, block_len, control, before, after, r),
        sweep_goes_on(after, before.len() as int),
    ensures
        r == Err::<(), SdError>(SdError::TuningFailed),
{
    let (samples, end) = choose|samples: Seq<Sample>, end: Seq<Access>|
        {
            &&& #[trigger] swept(
                opcode,
                block_len,
                samples,
                before.push(sweep_start(control)),
                end,
            )
            &&& 1 <= samples.len() <= TUNING_ATTEMPTS
            &&& tuning_after(samples) != Tuning::Again
            &&& r == tuning_result(tuning_after(samples))
            &&& after == if r is Ok { end } else { end.push(sweep_end(control)) }
        };
    let started = before.push(sweep_start(control));
    assert(sweep_goes_on(end, started.len() as int)) by {
        assert forall|j: int| started.len() <= j < end.len() implies (#[trigger] end[j] matches Access::Read {
            reg,
            value,
        } ==> reg == Reg::HostControl2 ==> value & CTRL2_EXECUTE_TUNING != 0) by {
            assert(end[j] == after[j]);
        }
    }
    lemma_swept_sweeping(opcode, block_len, samples, started, end);
    crate::signal::lemma_tuning_never_converges(samples);
}

/// Runs the tuning procedure: starts the sweep with `control`, the host
/// control 2 word of the mode, then issues the tuning command `opcode`
/// until the controller ends the sweep or the budget of commands is spent.
/// The run returns `Ok` when the controller has accepted a sampling point
/// and `TuningFailed` otherwise; it never returns anything else.
pub fn tune<B: Bus, K: Kernel>(
    bus: &mut Traced<B>,
    opcode: u8,
    block_len: u32,
    control: u32,
) -> (r: Result<(), SdError>)
    ensures
        tuned_by(opcode, block_len, control, old(bus).seen(), final(bus).seen(), r),
        r is Err ==> r == Err::<(), SdError>(SdError::TuningFailed),
{
    bus.write(Reg::HostControl2, control | CTRL2_EXECUTE_TUNING);
    let ghost started = bus.seen();
    let ghost mut samples: Seq<Sample> = Seq::empty();
    let mut attempt: u32 = 0;
    let mut state = Tuning::Again;
    while attempt < TUNING_ATTEMPTS && state == Tuning::Again
        invariant
            attempt <= TUNING_ATTEMPTS,
            samples.len() == attempt,
            swept(opcode, block_len, samples, started, bus.seen()),
            state == tuning_after(samples),
            attempt == 0 ==> state == Tuning::Again,
        decreases TUNING_ATTEMPTS - attempt,
    {
        attempt += 1;
        let ghost mid = bus.seen();
        let script = build_tuning_script(opcode, block_len);
        let ran = run::<B, K>(bus, script, Vec::new());
        let ghost seen = result_view(ran);
        let sample = match ran {
            Ok(words) => {
                if words.len() == 1 {
                    Sample::Control(words[0])
                } else {
                    Sample::Missed(SdError::InvalidResponse)
                }
            },
            Err(e) => Sample::Missed(e),
        };
        proof {
            let before = samples;
            samples = samples.push(sample);
            assert(samples.drop_last() =~= before);
            assert(sample == sample_of(seen));
            assert(played(
                tuning_script(opcode, block_len),
                Seq::<u32>::empty(),
                mid,
                bus.seen(),
                seen,
            ));
            assert(shown(opcode, block_len, mid, bus.seen(), samples.last()));
        }
        state = judge_tuning(&sample, attempt);
    }
    proof {
        if state == Tuning::Again {
            crate::signal::lemma_tuning_bounded(samples);
        }
    }
    match state {
        Tuning::Tuned => Ok(()),
        _ => {
            bus.write(Reg::HostControl2, control);
            Err(SdError::TuningFailed)
        },
    }
}

} // verus!
