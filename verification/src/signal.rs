//! The clock and signaling manager: the bus clock divider, bus power, the
//! signaling voltage, the bus width and timing mode bits of the host, and
//! the tuning of the sampling point.

use crate::err::SdError;
use crate::regs::{
    Reg, CLOCK_CARD_ENABLE, CLOCK_INTERNAL_ENABLE, CLOCK_INTERNAL_STABLE, CTRL2_1V8,
    CTRL2_EXECUTE_TUNING, CTRL2_SAMPLING_CLOCK, CTRL_4BIT, CTRL_8BIT, CTRL_ADMA2, CTRL_HIGH_SPEED,
    INT_ALL, POWER_180, POWER_330, POWER_ON, RESET_ALL, STATE_DAT_LEVELS,
};
use crate::regs::Access;
use crate::script::{
    done, lemma_starved_poll, played, starving, steps_wf, unit_result, Step,
};
use vstd::prelude::*;

verus! {

/// Width of the data bus.
#[derive(Clone, Copy, Debug, PartialEq, Eq, Structural)]
pub enum BusWidth {
    One,
    Four,
    Eight,
}

/// Signaling voltage.
#[derive(Clone, Copy, Debug, PartialEq, Eq, Structural)]
pub enum Voltage {
    /// 3.3 V
    V330,
    /// 1.8 V
    V180,
}

/// Timing mode of the bus, from the slowest to the fastest.
#[derive(Clone, Copy, Debug, PartialEq, Eq, Structural)]
pub enum TimingMode {
    Legacy,
    HighSpeed,
    Sdr50,
    Sdr104,
    Hs200,
    Hs400,
}

/// The largest clock divider.
pub const MAX_DIVIDER: u32 = 1023;
/// Reads of the clock control that the internal clock may take to settle.
pub const CLOCK_POLLS: u32 = 2_000;
/// Microseconds between two such reads.
pub const CLOCK_INTERVAL_US: u64 = 10;
/// Microseconds the card clock is given to settle once gated on.
pub const CLOCK_SETTLE_US: u64 = 1_000;
/// Reads of a register that a reset or the bus power may take.
pub const POWER_POLLS: u32 = 1_000;
/// Microseconds between two such reads.
pub const POWER_INTERVAL_US: u64 = 100;
/// Microseconds the card is given after power is applied.
pub const POWER_SETTLE_US: u64 = 10_000;
/// Microseconds the signaling voltage is given to change.
pub const VOLTAGE_SETTLE_US: u64 = 5_000;
/// Microseconds the clock runs before the data lines are looked at.
pub const VOLTAGE_CLOCK_US: u64 = 1_000;
/// Reads of the present state that the data lines may take to return high.
pub const VOLTAGE_POLLS: u32 = 1_000;
/// Microseconds between two such reads.
pub const VOLTAGE_INTERVAL_US: u64 = 10;
/// The most tuning commands one tuning run issues.
pub const TUNING_ATTEMPTS: u32 = 40;

/// The bus clock that divider `d` makes of the base clock: the base clock
/// itself for zero, else the base clock divided by twice the divider.
pub open spec fn clock_of(base: int, d: int) -> int {
    if d == 0 {
        base
    } else {
        base / (2 * d)
    }
}

/// The divider for a target clock: the smallest whose clock is no faster
/// than the target, or the largest there is where even that is too fast.
/// `None` where the base clock or the target is zero.
pub fn divider_for(base_hz: u32, target_hz: u32) -> (r: Option<u32>)
    ensures
        r is None <==> base_hz == 0 || target_hz == 0,
        r matches Some(d) ==> {
            &&& d <= MAX_DIVIDER
            &&& clock_of(base_hz as int, d as int) <= target_hz || d == MAX_DIVIDER
            &&& forall|e: int| 0 <= e < d ==> clock_of(base_hz as int, e) > target_hz
        },
{
    if base_hz == 0 || target_hz == 0 {
        return None;
    }
    if base_hz <= target_hz {
        return Some(0);
    }
    let step: u64 = 2 * (target_hz as u64 + 1);
    let q: u64 = base_hz as u64 / step;
    let ghost base = base_hz as int;
    let ghost t = target_hz as int;
    assert(q as int * (2 * (t + 1)) <= base < (q as int + 1) * (2 * (t + 1))) by (nonlinear_arith)
        requires
            q as int == base / (2 * (t + 1)),
            t >= 0,
            base >= 0,
    ;
    let d: u64 = if q + 1 > MAX_DIVIDER as u64 { MAX_DIVIDER as u64 } else { q + 1 };
    assert forall|e: int| 0 <= e < d implies clock_of(base, e) > t by {
        if e > 0 {
            assert(base / (2 * e) >= t + 1) by (nonlinear_arith)
                requires
                    base >= (q as int) * (2 * (t + 1)),
                    1 <= e <= q as int,
                    t >= 0,
            ;
        }
    }
    if d == q + 1 {
        assert(base / (2 * (d as int)) <= t) by (nonlinear_arith)
            requires
                base < (d as int) * (2 * (t + 1)),
                d >= 1,
                t >= 0,
                base >= 0,
        ;
    }
    Some(d as u32)
}

/// The divider as the clock control register holds it: its low eight bits
/// in bits 15..8, its two high bits in bits 7..6.
pub open spec fn divider_bits(d: u32) -> u32 {
    ((d & 0xFF) << 8) | ((d & 0x300) >> 2)
}

/// Computes the divider field of the clock control register.
pub fn encode_divider(d: u32) -> (w: u32)
    ensures
        w == divider_bits(d),
{
    ((d & 0xFF) << 8) | ((d & 0x300) >> 2)
}

/// The bounded wait for the internal clock to be stable.
pub open spec fn stable_wait() -> Step {
    Step::Poll {
        reg: Reg::ClockControl,
        mask: CLOCK_INTERNAL_STABLE,
        want: CLOCK_INTERNAL_STABLE,
        fault: 0,
        budget: CLOCK_POLLS,
        interval_us: CLOCK_INTERVAL_US,
        on_timeout: SdError::Timeout,
        recover: false,
    }
}

/// Changing the clock: gate it off, program the divider and wait for the
/// internal clock, gate the card clock on, let it settle.
pub open spec fn clock_script(d: u32) -> Seq<Step> {
    seq![
        Step::Write { reg: Reg::ClockControl, value: 0 },
        Step::Write { reg: Reg::ClockControl, value: divider_bits(d) | CLOCK_INTERNAL_ENABLE },
        stable_wait(),
        Step::Write {
            reg: Reg::ClockControl,
            value: divider_bits(d) | CLOCK_INTERNAL_ENABLE | CLOCK_CARD_ENABLE,
        },
        Step::Delay { us: CLOCK_SETTLE_US },
    ]
}

/// Builds the script of a clock change.
pub fn build_clock_script(d: u32) -> (script: Vec<Step>)
    ensures
        script@ == clock_script(d),
        steps_wf(script@, 0),
{
    let bits = encode_divider(d);
    let mut script: Vec<Step> = Vec::new();
    script.push(Step::Write { reg: Reg::ClockControl, value: 0 });
    script.push(Step::Write { reg: Reg::ClockControl, value: bits | CLOCK_INTERNAL_ENABLE });
    script.push(
        Step::Poll {
            reg: Reg::ClockControl,
            mask: CLOCK_INTERNAL_STABLE,
            want: CLOCK_INTERNAL_STABLE,
            fault: 0,
            budget: CLOCK_POLLS,
            interval_us: CLOCK_INTERVAL_US,
            on_timeout: SdError::Timeout,
            recover: false,
        },
    );
    script.push(
        Step::Write {
            reg: Reg::ClockControl,
            value: bits | CLOCK_INTERNAL_ENABLE | CLOCK_CARD_ENABLE,
        },
    );
    script.push(Step::Delay { us: CLOCK_SETTLE_US });
    assert(script@ =~= clock_script(d));
    script
}

/// The bounded wait for a full reset to be over.
pub open spec fn reset_wait() -> Step {
    Step::Poll {
        reg: Reg::SoftwareReset,
        mask: RESET_ALL,
        want: 0,
        fault: 0,
        budget: POWER_POLLS,
        interval_us: POWER_INTERVAL_US,
        on_timeout: SdError::Timeout,
        recover: false,
    }
}

/// The bounded wait for the bus power to stay on; a controller that drops
/// it has hit its current limit.
pub open spec fn power_wait() -> Step {
    Step::Poll {
        reg: Reg::PowerControl,
        mask: POWER_ON,
        want: POWER_ON,
        fault: 0,
        budget: POWER_POLLS,
        interval_us: POWER_INTERVAL_US,
        on_timeout: SdError::CurrentLimit,
        recover: false,
    }
}

/// Powering up: reset the controller, apply 3.3 V bus power, enable every
/// interrupt status, select the one-bit bus, and give the card its time.
pub open spec fn power_script() -> Seq<Step> {
    seq![
        Step::Write { reg: Reg::SoftwareReset, value: RESET_ALL },
        reset_wait(),
        Step::Write { reg: Reg::PowerControl, value: POWER_330 | POWER_ON },
        power_wait(),
        Step::Write { reg: Reg::IntEnable, value: INT_ALL },
        Step::Write { reg: Reg::HostControl1, value: 0 },
        Step::Write { reg: Reg::HostControl2, value: 0 },
        Step::Delay { us: POWER_SETTLE_US },
    ]
}

/// Builds the power-up script.
pub fn build_power_script() -> (script: Vec<Step>)
    ensures
        script@ == power_script(),
        steps_wf(script@, 0),
{
    let mut script: Vec<Step> = Vec::new();
    script.push(Step::Write { reg: Reg::SoftwareReset, value: RESET_ALL });
    script.push(
        Step::Poll {
            reg: Reg::SoftwareReset,
            mask: RESET_ALL,
            want: 0,
            fault: 0,
            budget: POWER_POLLS,
            interval_us: POWER_INTERVAL_US,
            on_timeout: SdError::Timeout,
            recover: false,
        },
    );
    script.push(Step::Write { reg: Reg::PowerControl, value: POWER_330 | POWER_ON });
    script.push(
        Step::Poll {
            reg: Reg::PowerControl,
            mask: POWER_ON,
            want: POWER_ON,
            fault: 0,
            budget: POWER_POLLS,
            interval_us: POWER_INTERVAL_US,
            on_timeout: SdError::CurrentLimit,
            recover: false,
        },
    );
    script.push(Step::Write { reg: Reg::IntEnable, value: INT_ALL });
    script.push(Step::Write { reg: Reg::HostControl1, value: 0 });
    script.push(Step::Write { reg: Reg::HostControl2, value: 0 });
    script.push(Step::Delay { us: POWER_SETTLE_US });
    assert(script@ =~= power_script());
    script
}

/// The bounded wait for the data lines to return high after a voltage
/// switch.
pub open spec fn settle_wait() -> Step {
    Step::Poll {
        reg: Reg::PresentState,
        mask: STATE_DAT_LEVELS,
        want: STATE_DAT_LEVELS,
        fault: 0,
        budget: VOLTAGE_POLLS,
        interval_us: VOLTAGE_INTERVAL_US,
        on_timeout: SdError::VoltageSwitchFailed,
        recover: false,
    }
}

/// The power control word for a signaling voltage.
pub open spec fn power_word(target: Voltage) -> u32 {
    (if target == Voltage::V180 { POWER_180 } else { POWER_330 }) | POWER_ON
}

/// The host control 2 word for a timing mode at a signaling voltage.
pub open spec fn control2_word(mode: TimingMode, voltage: Voltage) -> u32 {
    mode_bits(mode) | (if voltage == Voltage::V180 { CTRL2_1V8 } else { 0 })
}

/// Switching the signaling voltage: stop the card clock, select the
/// voltage, wait the settle window, start the clock again, then see the
/// data lines return high within a bounded window.
pub open spec fn voltage_script(target: Voltage, mode: TimingMode, d: u32) -> Seq<Step> {
    seq![
        Step::Write { reg: Reg::ClockControl, value: divider_bits(d) | CLOCK_INTERNAL_ENABLE },
        Step::Write { reg: Reg::HostControl2, value: control2_word(mode, target) },
        Step::Write { reg: Reg::PowerControl, value: power_word(target) },
        Step::Delay { us: VOLTAGE_SETTLE_US },
        Step::Write {
            reg: Reg::ClockControl,
            value: divider_bits(d) | CLOCK_INTERNAL_ENABLE | CLOCK_CARD_ENABLE,
        },
        Step::Delay { us: VOLTAGE_CLOCK_US },
        settle_wait(),
    ]
}

/// Builds the script of a voltage switch.
pub fn build_voltage_script(target: Voltage, mode: TimingMode, d: u32) -> (script: Vec<Step>)
    ensures
        script@ == voltage_script(target, mode, d),
        steps_wf(script@, 0),
{
    let bits = encode_divider(d);
    let power: u32 = match target {
        Voltage::V180 => POWER_180 | POWER_ON,
        Voltage::V330 => POWER_330 | POWER_ON,
    };
    let mut script: Vec<Step> = Vec::new();
    script.push(Step::Write { reg: Reg::ClockControl, value: bits | CLOCK_INTERNAL_ENABLE });
    script.push(Step::Write { reg: Reg::HostControl2, value: encode_control2(mode, target) });
    script.push(Step::Write { reg: Reg::PowerControl, value: power });
    script.push(Step::Delay { us: VOLTAGE_SETTLE_US });
    script.push(
        Step::Write {
            reg: Reg::ClockControl,
            value: bits | CLOCK_INTERNAL_ENABLE | CLOCK_CARD_ENABLE,
        },
    );
    script.push(Step::Delay { us: VOLTAGE_CLOCK_US });
    script.push(
        Step::Poll {
            reg: Reg::PresentState,
            mask: STATE_DAT_LEVELS,
            want: STATE_DAT_LEVELS,
            fault: 0,
            budget: VOLTAGE_POLLS,
            interval_us: VOLTAGE_INTERVAL_US,
            on_timeout: SdError::VoltageSwitchFailed,
            recover: false,
        },
    );
    assert(script@ =~= voltage_script(target, mode, d));
    script
}

/// While the data lines never all return high, a voltage switch fails
/// with `VoltageSwitchFailed`: whenever the switch has been played on a
/// bus, and no look at the present state showed all the data lines high,
/// that is its result.  And it does end, since its script is bounded like
/// every script.
pub proof fn lemma_voltage_never_settles(
    target: Voltage,
    mode: TimingMode,
    d: u32,
    before: Seq<Access>,
    after: Seq<Access>,
    r: Result<(), SdError>,
)
    requires
        done(voltage_script(target, mode, d), before, after, r),
        forall|j: int|
            before.len() <= j < after.len() ==> (#[trigger] after[j] matches Access::Read {
                reg,
                value,
            } ==> reg == Reg::PresentState ==> value & STATE_DAT_LEVELS != STATE_DAT_LEVELS),
    ensures
        r == Err::<(), SdError>(SdError::VoltageSwitchFailed),
{
    let script = voltage_script(target, mode, d);
    let ran = choose|ran: Result<Seq<u32>, SdError>| #[trigger]
        played(script, Seq::<u32>::empty(), before, after, ran) && r == unit_result(ran);
    assert forall|j: int| before.len() <= j < after.len() implies starving(
        script,
        6,
        #[trigger] after[j],
    ) by {
        match after[j] {
            Access::Read { reg, value } => {
                assert(value & 0 == 0) by (bit_vector);
            },
            _ => {},
        }
    }
    lemma_starved_poll(script, Seq::empty(), 6, before, after, ran);
}

/// The mode select bits of host control 2 for a timing mode.
pub open spec fn mode_bits(mode: TimingMode) -> u32 {
    match mode {
        TimingMode::Legacy => 0,
        TimingMode::HighSpeed => 1,
        TimingMode::Sdr50 => 2,
        TimingMode::Sdr104 => 3,
        TimingMode::Hs200 => 3,
        TimingMode::Hs400 => 7,
    }
}

/// Computes the host control 2 word for a timing mode at a voltage.
pub fn encode_control2(mode: TimingMode, voltage: Voltage) -> (w: u32)
    ensures
        w == control2_word(mode, voltage),
{
    let bits: u32 = match mode {
        TimingMode::Legacy => 0,
        TimingMode::HighSpeed => 1,
        TimingMode::Sdr50 => 2,
        TimingMode::Sdr104 => 3,
        TimingMode::Hs200 => 3,
        TimingMode::Hs400 => 7,
    };
    bits | (match voltage {
        Voltage::V180 => CTRL2_1V8,
        Voltage::V330 => 0,
    })
}

/// The host control 1 word for a bus width, a timing mode and the choice
/// of descriptor transfers.
pub open spec fn control1_word(width: BusWidth, mode: TimingMode, dma: bool) -> u32 {
    (match width {
        BusWidth::One => 0u32,
        BusWidth::Four => CTRL_4BIT,
        BusWidth::Eight => CTRL_8BIT,
    }) | (if mode == TimingMode::Legacy { 0 } else { CTRL_HIGH_SPEED }) | (if dma {
        CTRL_ADMA2
    } else {
        0
    })
}

/// Computes the host control 1 word.
pub fn encode_control1(width: BusWidth, mode: TimingMode, dma: bool) -> (w: u32)
    ensures
        w == control1_word(width, mode, dma),
{
    let wide: u32 = match width {
        BusWidth::One => 0,
        BusWidth::Four => CTRL_4BIT,
        BusWidth::Eight => CTRL_8BIT,
    };
    let fast: u32 = match mode {
        TimingMode::Legacy => 0,
        _ => CTRL_HIGH_SPEED,
    };
    wide | fast | (if dma { CTRL_ADMA2 } else { 0 })
}

/// Whether a timing mode needs the sampling point tuned before use.
pub open spec fn needs_tuning(mode: TimingMode) -> bool {
    mode == TimingMode::Sdr104 || mode == TimingMode::Hs200 || mode == TimingMode::Hs400
}

/// Whether a timing mode needs the sampling point tuned before use.
pub fn mode_needs_tuning(mode: TimingMode) -> (b: bool)
    ensures
        b == needs_tuning(mode),
{
    match mode {
        TimingMode::Sdr104 | TimingMode::Hs200 | TimingMode::Hs400 => true,
        _ => false,
    }
}

/// Whether a timing mode signals at 1.8 V.
pub open spec fn needs_low_voltage(mode: TimingMode) -> bool {
    mode == TimingMode::Sdr50 || mode == TimingMode::Sdr104 || mode == TimingMode::Hs200 || mode
        == TimingMode::Hs400
}

/// Whether a timing mode signals at 1.8 V.
pub fn mode_needs_low_voltage(mode: TimingMode) -> (b: bool)
    ensures
        b == needs_low_voltage(mode),
{
    match mode {
        TimingMode::Sdr50 | TimingMode::Sdr104 | TimingMode::Hs200 | TimingMode::Hs400 => true,
        _ => false,
    }
}

/// The bus clock of a timing mode, in hertz.
pub open spec fn mode_clock(mode: TimingMode) -> u32 {
    match mode {
        TimingMode::Legacy => 25_000_000,
        TimingMode::HighSpeed => 50_000_000,
        TimingMode::Sdr50 => 100_000_000,
        TimingMode::Sdr104 => 208_000_000,
        TimingMode::Hs200 => 200_000_000,
        TimingMode::Hs400 => 200_000_000,
    }
}

/// The bus clock of a timing mode, in hertz.
pub fn clock_for(mode: TimingMode) -> (hz: u32)
    ensures
        hz == mode_clock(mode),
{
    match mode {
        TimingMode::Legacy => 25_000_000,
        TimingMode::HighSpeed => 50_000_000,
        TimingMode::Sdr50 => 100_000_000,
        TimingMode::Sdr104 => 208_000_000,
        TimingMode::Hs200 => 200_000_000,
        TimingMode::Hs400 => 200_000_000,
    }
}

/// How a tuning run stands.
#[derive(Clone, Copy, Debug, PartialEq, Eq, Structural)]
pub enum Tuning {
    /// Another tuning command is due.
    Again,
    /// The controller has accepted a sampling point.
    Tuned,
    /// The run has failed.
    Failed,
}

/// What one tuning command has shown: host control 2 as read after it, or
/// the error it ended with.
pub enum Sample {
    Control(u32),
    Missed(SdError),
}

/// Whether a sample shows the controller still sweeping.
pub open spec fn still_sweeping(sample: Sample) -> bool {
    match sample {
        Sample::Control(w) => w & CTRL2_EXECUTE_TUNING != 0,
        Sample::Missed(_) => true,
    }
}

/// How the run stands after tuning command number `attempt`, counted from
/// one, has shown `sample`.  The controller ends the sweep by clearing its
/// execute bit; the sampling point is accepted if its sampling clock bit is
/// then set.  While the sweep goes on, another command is due until the
/// budget is spent.
pub open spec fn tuning_verdict(sample: Sample, attempt: int) -> Tuning {
    match sample {
        Sample::Control(w) => if w & CTRL2_EXECUTE_TUNING == 0 {
            if w & CTRL2_SAMPLING_CLOCK != 0 {
                Tuning::Tuned
            } else {
                Tuning::Failed
            }
        } else if attempt >= TUNING_ATTEMPTS {
            Tuning::Failed
        } else {
            Tuning::Again
        },
        Sample::Missed(_) => if attempt >= TUNING_ATTEMPTS {
            Tuning::Failed
        } else {
            Tuning::Again
        },
    }
}

/// Judges one tuning command.
pub fn judge_tuning(sample: &Sample, attempt: u32) -> (t: Tuning)
    ensures
        t == tuning_verdict(*sample, attempt as int),
{
    match sample {
        Sample::Control(w) => {
            if *w & CTRL2_EXECUTE_TUNING == 0 {
                if *w & CTRL2_SAMPLING_CLOCK != 0 {
                    Tuning::Tuned
                } else {
                    Tuning::Failed
                }
            } else if attempt >= TUNING_ATTEMPTS {
                Tuning::Failed
            } else {
                Tuning::Again
            }
        },
        Sample::Missed(_) => {
            if attempt >= TUNING_ATTEMPTS {
                Tuning::Failed
            } else {
                Tuning::Again
            }
        },
    }
}

/// How a tuning run stands after the samples of its commands so far.
pub open spec fn tuning_after(samples: Seq<Sample>) -> Tuning
    decreases samples.len(),
{
    if samples.len() == 0 {
        Tuning::Again
    } else {
        match tuning_after(samples.drop_last()) {
            Tuning::Again => tuning_verdict(samples.last(), samples.len() as int),
            ended => ended,
        }
    }
}

/// What a tuning run returns.
pub open spec fn tuning_result(t: Tuning) -> Result<(), SdError> {
    if t == Tuning::Tuned {
        Ok(())
    } else {
        Err(SdError::TuningFailed)
    }
}

/// A tuning run is over after its budget of commands, whatever they show.
pub proof fn lemma_tuning_bounded(samples: Seq<Sample>)
    requires
        samples.len() >= TUNING_ATTEMPTS,
    ensures
        tuning_after(samples) != Tuning::Again,
    decreases samples.len(),
{
    if samples.len() > TUNING_ATTEMPTS {
        lemma_tuning_bounded(samples.drop_last());
    }
}

/// A sweep that never converges fails the run: while every sample shows
/// the controller still sweeping, the run asks for another command until
/// the budget is spent, and then it has failed.
pub proof fn lemma_tuning_never_converges(samples: Seq<Sample>)
    requires
        forall|i: int| 0 <= i < samples.len() ==> still_sweeping(#[trigger] samples[i]),
    ensures
        samples.len() < TUNING_ATTEMPTS ==> tuning_after(samples) == Tuning::Again,
        samples.len() >= TUNING_ATTEMPTS ==> tuning_after(samples) == Tuning::Failed,
        samples.len() >= TUNING_ATTEMPTS ==> tuning_result(tuning_after(samples)) == Err::<
            (),
            SdError,
        >(SdError::TuningFailed),
    decreases samples.len(),
{
    if samples.len() > 0 {
        let before = samples.drop_last();
        assert forall|i: int| 0 <= i < before.len() implies still_sweeping(#[trigger] before[i]) by {
            assert(before[i] == samples[i]);
        }
        lemma_tuning_never_converges(before);
        assert(still_sweeping(samples[samples.len() - 1]));
    }
}

} // verus!
