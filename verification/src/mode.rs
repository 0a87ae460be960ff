//! Setting card and host up for a timing mode: the card is asked to
//! change, the host follows at the clock of the mode, and the sampling
//! point is tuned where the mode needs it.

use crate::card::Family;
use crate::command::{executed, Command, Response, ResponseType};
use crate::emmc::{
    clocked, reclocked, tuning_block_len, tuning_opcode, voltage_switched, EMmcHost,
    CARD_SWITCH_ERROR,
};
use crate::err::SdError;
use crate::regs::{Access, Bus, Kernel, Reg, Traced};
use crate::script::{done, run_plain, Step};
use crate::signal::{
    clock_for, control1_word, control2_word, encode_control1, encode_control2, mode_clock,
    mode_needs_low_voltage, mode_needs_tuning, needs_low_voltage, needs_tuning, BusWidth,
    TimingMode, Voltage,
};
use crate::transfer::{bytes_view, pio_read, read_by_pio};
use crate::tuning::{tune, tuned_by};
use vstd::prelude::*;

verus! {

/// The value of the timing field of the extended register for a mode.
pub open spec fn timing_value(mode: TimingMode) -> u32 {
    match mode {
        TimingMode::HighSpeed => 1,
        TimingMode::Hs200 => 2,
        TimingMode::Hs400 => 3,
        _ => 0,
    }
}

/// The command that switches an MMC card to a timing mode.
pub open spec fn timing_command(mode: TimingMode) -> Command {
    Command {
        opcode: 6,
        argument: 0x03B9_0000 | (timing_value(mode) << 8),
        response: ResponseType::R1b,
        data: false,
        app: false,
    }
}

/// Whether an MMC card has taken the switch, from the outcome of the
/// command.
pub open spec fn timing_ack(outcome: Result<Response, SdError>) -> Result<(), SdError> {
    match outcome {
        Ok(r) => if r.low_word() & CARD_SWITCH_ERROR != 0 {
            Err(SdError::CommandError)
        } else {
            Ok(())
        },
        Err(e) => Err(e),
    }
}

/// The function of the first function group that stands for a mode.
pub open spec fn function_of(mode: TimingMode) -> u8 {
    match mode {
        TimingMode::HighSpeed => 1,
        TimingMode::Sdr50 => 2,
        TimingMode::Sdr104 => 3,
        _ => 0,
    }
}

/// The command that switches an SD card to a timing mode.
pub open spec fn function_command(mode: TimingMode) -> Command {
    Command {
        opcode: 6,
        argument: 0x80FF_FFF0 | (function_of(mode) as u32),
        response: ResponseType::R1,
        data: true,
        app: false,
    }
}

/// Whether the status block of the SD switch function command names the
/// function that was asked for.
pub open spec fn switch_accepted(status: Seq<u8>, function: u8) -> bool {
    status.len() == 64 && status[16] & 0x0F == function
}

/// Whether the card has taken the function that was asked for.
pub fn switch_took(status: &Vec<u8>, function: u8) -> (b: bool)
    ensures
        b == switch_accepted(status@, function),
{
    status.len() == 64 && status[16] & 0x0F == function
}

/// Whether an SD card has taken the function, from the status block read.
pub open spec fn function_ack(status: Result<Seq<u8>, SdError>, function: u8) -> Result<
    (),
    SdError,
> {
    match status {
        Ok(bytes) => if switch_accepted(bytes, function) {
            Ok(())
        } else {
            Err(SdError::CommandError)
        },
        Err(e) => Err(e),
    }
}

/// `r` is what asking the card of `h` for a timing mode returns, with the
/// record of the bus before and after.  A host whose clock is off refuses,
/// and nothing happens on the bus.  An MMC card is told by a switch of its
/// extended register and must not report a failed switch; an SD card by
/// the switch function command, whose status block must name the function
/// asked for.
pub open spec fn card_switched(
    h: EMmcHost,
    mode: TimingMode,
    t0: Seq<Access>,
    t1: Seq<Access>,
    r: Result<(), SdError>,
) -> bool {
    if h.clock_hz == 0 {
        r == Err::<(), SdError>(SdError::InvalidArgument) && t1 == t0
    } else if h.session.family == Family::Mmc {
        exists|outcome: Result<Response, SdError>| #[trigger]
            executed(timing_command(mode), h.session.card.rca, t0, t1, outcome) && r == timing_ack(
                outcome,
            )
    } else {
        exists|status: Result<Seq<u8>, SdError>| #[trigger]
            read_by_pio(function_command(mode), 1, 16, t0, t1, status) && r == function_ack(
                status,
                function_of(mode),
            )
    }
}

/// The first step of a stage: the card is asked for the mode, except for
/// the legacy mode, which every card is in from the start.
pub open spec fn asked(
    h: EMmcHost,
    mode: TimingMode,
    t0: Seq<Access>,
    t1: Seq<Access>,
    r: Result<(), SdError>,
) -> bool {
    if mode == TimingMode::Legacy {
        r == Ok::<(), SdError>(()) && t1 == t0
    } else {
        card_switched(h, mode, t0, t1, r)
    }
}

/// Setting the host up for a mode: the two host control words.
pub open spec fn host_script(control1: u32, control2: u32) -> Seq<Step> {
    seq![
        Step::Write { reg: Reg::HostControl1, value: control1 },
        Step::Write { reg: Reg::HostControl2, value: control2 },
    ]
}

/// What setting the host up for a mode makes of a host, and what it
/// returns: the host control words are written, and then the clock is
/// changed to that of the mode.
pub open spec fn programmed(
    h: EMmcHost,
    mode: TimingMode,
    voltage: Voltage,
    after: EMmcHost,
    t0: Seq<Access>,
    t1: Seq<Access>,
    r: Result<(), SdError>,
) -> bool {
    exists|p: Result<(), SdError>, mid: Seq<Access>| #[trigger]
        done(
            host_script(control1_word(h.session.width, mode, h.dma), control2_word(mode, voltage)),
            t0,
            mid,
            p,
        ) && match p {
            Err(e) => r == Err::<(), SdError>(e) && after == h && t1 == mid,
            Ok(_) => reclocked(h, mode_clock(mode), after, mid, t1, r),
        }
}

/// The last step of a stage: the sampling point is tuned where that is
/// asked for, and the host is tuned exactly when the tuning returns `Ok`.
pub open spec fn finished(
    h: EMmcHost,
    mode: TimingMode,
    voltage: Voltage,
    with_tuning: bool,
    after: EMmcHost,
    t0: Seq<Access>,
    t1: Seq<Access>,
    r: Result<(), SdError>,
) -> bool {
    if with_tuning {
        &&& tuned_by(
            tuning_opcode(h.session.family),
            tuning_block_len(h.session.width),
            control2_word(mode, voltage),
            t0,
            t1,
            r,
        )
        &&& after == (EMmcHost { tuned: r is Ok, ..h })
    } else {
        r == Ok::<(), SdError>(()) && after == h && t1 == t0
    }
}

/// What the later steps of a stage make of a host, once the card has
/// taken the mode: the host is set up, and then the sampling point is
/// tuned.
pub open spec fn set_up(
    h: EMmcHost,
    mode: TimingMode,
    voltage: Voltage,
    with_tuning: bool,
    after: EMmcHost,
    t0: Seq<Access>,
    t1: Seq<Access>,
    r: Result<(), SdError>,
) -> bool {
    exists|mid: EMmcHost, seen: Seq<Access>, p: Result<(), SdError>| #[trigger]
        programmed(h, mode, voltage, mid, t0, seen, p) && match p {
            Err(e) => r == Err::<(), SdError>(e) && after == mid && t1 == seen,
            Ok(_) => finished(mid, mode, voltage, with_tuning, after, seen, t1, r),
        }
}

/// What one stage of a mode setup makes of a host, and what it returns,
/// with the record of the bus before and after: the card is asked, the
/// host is set up, the sampling point is tuned; the first step that fails
/// ends the stage with its error.
pub open spec fn staged(
    h: EMmcHost,
    mode: TimingMode,
    voltage: Voltage,
    with_tuning: bool,
    after: EMmcHost,
    t0: Seq<Access>,
    t1: Seq<Access>,
    r: Result<(), SdError>,
) -> bool {
    exists|c: Result<(), SdError>, seen: Seq<Access>| #[trigger]
        asked(h, mode, t0, seen, c) && match c {
            Err(e) => r == Err::<(), SdError>(e) && after == h && t1 == seen,
            Ok(_) => set_up(h, mode, voltage, with_tuning, after, seen, t1, r),
        }
}

/// The switch to 1.8 V that comes before a mode that needs it.
pub open spec fn lowered(
    h: EMmcHost,
    low: bool,
    t0: Seq<Access>,
    t1: Seq<Access>,
    r: Result<(), SdError>,
) -> bool {
    if low {
        voltage_switched(h, Voltage::V180, t0, t1, r)
    } else {
        r == Ok::<(), SdError>(()) && t1 == t0
    }
}

/// Whether a mode needs a switch of the signaling voltage first.
pub open spec fn must_lower(h: EMmcHost, mode: TimingMode) -> bool {
    needs_low_voltage(mode) && h.session.voltage != Voltage::V180
}

/// The signaling voltage at which a mode is staged.
pub open spec fn staging_voltage(h: EMmcHost, mode: TimingMode) -> Voltage {
    if must_lower(h, mode) {
        Voltage::V180
    } else {
        h.session.voltage
    }
}

/// The host as it enters a mode setup: not tuned.
pub open spec fn untuned(h: EMmcHost) -> EMmcHost {
    EMmcHost { tuned: false, ..h }
}

/// What the stages of a mode make of a host, and what they return: one
/// stage, with tuning where the mode needs it; for the fastest MMC mode
/// two, the first of them in the next slower mode, with the tuning.
pub open spec fn laddered(
    h: EMmcHost,
    voltage: Voltage,
    mode: TimingMode,
    after: EMmcHost,
    t0: Seq<Access>,
    t1: Seq<Access>,
    r: Result<(), SdError>,
) -> bool {
    if mode == TimingMode::Hs400 {
        exists|mid: EMmcHost, seen: Seq<Access>, q: Result<(), SdError>| #[trigger]
            staged(h, TimingMode::Hs200, voltage, true, mid, t0, seen, q) && match q {
                Err(e) => r == Err::<(), SdError>(e) && after == mid && t1 == seen,
                Ok(_) => staged(mid, TimingMode::Hs400, voltage, false, after, seen, t1, r),
            }
    } else {
        staged(h, mode, voltage, needs_tuning(mode), after, t0, t1, r)
    }
}

/// What the setup of a timing mode makes of a host, and what it returns,
/// with the record of the bus before and after.  The host starts untuned.
/// The signaling voltage is switched to 1.8 V where the mode needs it and
/// the host is not there yet.  Then the mode is staged.  The first step
/// that fails ends the setup with its error.
pub open spec fn mode_applied(
    h: EMmcHost,
    mode: TimingMode,
    after: EMmcHost,
    t0: Seq<Access>,
    t1: Seq<Access>,
    r: Result<(), SdError>,
) -> bool {
    exists|v: Result<(), SdError>, seen: Seq<Access>| #[trigger]
        lowered(h, must_lower(h, mode), t0, seen, v) && match v {
            Err(e) => r == Err::<(), SdError>(e) && after == untuned(h) && t1 == seen,
            Ok(_) => laddered(untuned(h), staging_voltage(h, mode), mode, after, seen, t1, r),
        }
}

/// What asking for a timing mode makes of a host, and what it returns.  A
/// card that is not selected and a clock that is off are refused with
/// `InvalidArgument`; nothing changes then and nothing happens on the bus.
pub open spec fn mode_set(
    h: EMmcHost,
    mode: TimingMode,
    after: EMmcHost,
    t0: Seq<Access>,
    t1: Seq<Access>,
    r: Result<(), SdError>,
) -> bool {
    if !h.session.card.selected || h.clock_hz == 0 {
        r == Err::<(), SdError>(SdError::InvalidArgument) && after == h && t1 == t0
    } else {
        mode_applied(h, mode, after, t0, t1, r)
    }
}

/// What a setup or a part of one leaves alone whatever it returns: the
/// session, the base clock and the choice of transfers.
pub open spec fn kept(before: EMmcHost, after: EMmcHost) -> bool {
    &&& after.session == before.session
    &&& after.base == before.base
    &&& after.base_clock_hz == before.base_clock_hz
    &&& after.dma == before.dma
}

proof fn lemma_programmed(
    h: EMmcHost,
    mode: TimingMode,
    voltage: Voltage,
    after: EMmcHost,
    t0: Seq<Access>,
    t1: Seq<Access>,
    r: Result<(), SdError>,
)
    requires
        programmed(h, mode, voltage, after, t0, t1, r),
    ensures
        kept(h, after),
        after.tuned == h.tuned,
        r is Ok ==> clocked(after, mode_clock(mode)),
{
}

proof fn lemma_finished(
    h: EMmcHost,
    mode: TimingMode,
    voltage: Voltage,
    with_tuning: bool,
    after: EMmcHost,
    t0: Seq<Access>,
    t1: Seq<Access>,
    r: Result<(), SdError>,
)
    requires
        finished(h, mode, voltage, with_tuning, after, t0, t1, r),
    ensures
        kept(h, after),
        after.clock_hz == h.clock_hz,
        after.divider == h.divider,
        !with_tuning ==> after.tuned == h.tuned,
        r is Ok && with_tuning ==> after.tuned,
{
}

proof fn lemma_set_up(
    h: EMmcHost,
    mode: TimingMode,
    voltage: Voltage,
    with_tuning: bool,
    after: EMmcHost,
    t0: Seq<Access>,
    t1: Seq<Access>,
    r: Result<(), SdError>,
)
    requires
        set_up(h, mode, voltage, with_tuning, after, t0, t1, r),
    ensures
        kept(h, after),
        !with_tuning ==> after.tuned == h.tuned,
        r is Ok ==> clocked(after, mode_clock(mode)),
        r is Ok && with_tuning ==> after.tuned,
{
    let (mid, seen, p) = choose|mid: EMmcHost, seen: Seq<Access>, p: Result<(), SdError>| #[trigger]
        programmed(h, mode, voltage, mid, t0, seen, p) && match p {
            Err(e) => r == Err::<(), SdError>(e) && after == mid && t1 == seen,
            Ok(_) => finished(mid, mode, voltage, with_tuning, after, seen, t1, r),
        };
    lemma_programmed(h, mode, voltage, mid, t0, seen, p);
    if p is Ok {
        lemma_finished(mid, mode, voltage, with_tuning, after, seen, t1, r);
        if r is Ok {
            assert(clocked(mid, mode_clock(mode)));
            assert(clocked(after, mode_clock(mode)));
        }
    }
}

proof fn lemma_staged(
    h: EMmcHost,
    mode: TimingMode,
    voltage: Voltage,
    with_tuning: bool,
    after: EMmcHost,
    t0: Seq<Access>,
    t1: Seq<Access>,
    r: Result<(), SdError>,
)
    requires
        staged(h, mode, voltage, with_tuning, after, t0, t1, r),
    ensures
        kept(h, after),
        !with_tuning ==> after.tuned == h.tuned,
        r is Ok ==> clocked(after, mode_clock(mode)),
        r is Ok && with_tuning ==> after.tuned,
{
    let (c, seen) = choose|c: Result<(), SdError>, seen: Seq<Access>| #[trigger]
        asked(h, mode, t0, seen, c) && match c {
            Err(e) => r == Err::<(), SdError>(e) && after == h && t1 == seen,
            Ok(_) => set_up(h, mode, voltage, with_tuning, after, seen, t1, r),
        };
    if c is Ok {
        lemma_set_up(h, mode, voltage, with_tuning, after, seen, t1, r);
    }
}

proof fn lemma_laddered(
    h: EMmcHost,
    voltage: Voltage,
    mode: TimingMode,
    after: EMmcHost,
    t0: Seq<Access>,
    t1: Seq<Access>,
    r: Result<(), SdError>,
)
    requires
        laddered(h, voltage, mode, after, t0, t1, r),
    ensures
        kept(h, after),
        r is Ok ==> clocked(after, mode_clock(mode)),
        r is Ok && needs_tuning(mode) ==> after.tuned,
{
    if mode == TimingMode::Hs400 {
        let (mid, seen, q) = choose|mid: EMmcHost, seen: Seq<Access>, q: Result<(), SdError>| #[trigger]
            staged(h, TimingMode::Hs200, voltage, true, mid, t0, seen, q) && match q {
                Err(e) => r == Err::<(), SdError>(e) && after == mid && t1 == seen,
                Ok(_) => staged(mid, TimingMode::Hs400, voltage, false, after, seen, t1, r),
            };
        lemma_staged(h, TimingMode::Hs200, voltage, true, mid, t0, seen, q);
        if q is Ok {
            lemma_staged(mid, TimingMode::Hs400, voltage, false, after, seen, t1, r);
        }
    } else {
        lemma_staged(h, mode, voltage, needs_tuning(mode), after, t0, t1, r);
    }
}

/// A mode setup that returns `Ok` leaves the host at the clock of the
/// mode, and tuned where the mode needs it; and whatever it returns, it
/// leaves the session, the base clock and the choice of transfers alone.
pub proof fn lemma_mode_applied(
    h: EMmcHost,
    mode: TimingMode,
    after: EMmcHost,
    t0: Seq<Access>,
    t1: Seq<Access>,
    r: Result<(), SdError>,
)
    requires
        mode_applied(h, mode, after, t0, t1, r),
    ensures
        kept(h, after),
        r is Ok ==> clocked(after, mode_clock(mode)),
        r is Ok && needs_tuning(mode) ==> after.tuned,
{
    let (v, seen) = choose|v: Result<(), SdError>, seen: Seq<Access>| #[trigger]
        lowered(h, must_lower(h, mode), t0, seen, v) && match v {
            Err(e) => r == Err::<(), SdError>(e) && after == untuned(h) && t1 == seen,
            Ok(_) => laddered(untuned(h), staging_voltage(h, mode), mode, after, seen, t1, r),
        };
    if v is Ok {
        lemma_laddered(untuned(h), staging_voltage(h, mode), mode, after, seen, t1, r);
    }
}

impl EMmcHost {
    /// Asks the card to change to a timing mode.  A card that does not
    /// take the mode gives `CommandError`.
    pub fn switch_card<B: Bus, K: Kernel>(&self, bus: &mut Traced<B>, mode: TimingMode) -> (r:
        Result<(), SdError>)
        ensures
            card_switched(*self, mode, old(bus).seen(), final(bus).seen(), r),
            self.clock_hz == 0 ==> *final(bus) == *old(bus),
    {
        if self.clock_hz == 0 {
            return Err(SdError::InvalidArgument);
        }
        let mmc = match self.session.family {
            Family::Mmc => true,
            _ => false,
        };
        if mmc {
            let value: u32 = match mode {
                TimingMode::HighSpeed => 1,
                TimingMode::Hs200 => 2,
                TimingMode::Hs400 => 3,
                _ => 0,
            };
            let cmd = Command::new(6, 0x03B9_0000 | (value << 8), ResponseType::R1b);
            assert(cmd == timing_command(mode));
            match self.execute::<B, K>(bus, &cmd) {
                Ok(r) => {
                    if ((r.raw & 0xFFFF_FFFF) as u32) & CARD_SWITCH_ERROR != 0 {
                        Err(SdError::CommandError)
                    } else {
                        Ok(())
                    }
                },
                Err(e) => Err(e),
            }
        } else {
            let function: u8 = match mode {
                TimingMode::HighSpeed => 1,
                TimingMode::Sdr50 => 2,
                TimingMode::Sdr104 => 3,
                _ => 0,
            };
            let cmd = Command::with_data(6, 0x80FF_FFF0 | (function as u32), ResponseType::R1);
            assert(cmd == function_command(mode));
            let status = pio_read::<B, K>(bus, &cmd, 1, 16);
            assert(read_by_pio(
                function_command(mode),
                1,
                16,
                old(bus).seen(),
                bus.seen(),
                bytes_view(status),
            ));
            match status {
                Ok(status) => {
                    if switch_took(&status, function) {
                        Ok(())
                    } else {
                        Err(SdError::CommandError)
                    }
                },
                Err(e) => Err(e),
            }
        }
    }

    /// Sets the host up for a timing mode at a voltage and at the clock of
    /// the mode.
    pub fn program_host<B: Bus, K: Kernel>(
        &mut self,
        bus: &mut Traced<B>,
        mode: TimingMode,
        voltage: Voltage,
    ) -> (r: Result<(), SdError>)
        requires
            old(self).wf(),
        ensures
            final(self).wf(),
            programmed(*old(self), mode, voltage, *final(self), old(bus).seen(), final(bus).seen(), r),
    {
        let control1 = encode_control1(self.session.width, mode, self.dma);
        let control2 = encode_control2(mode, voltage);
        let mut script: Vec<Step> = Vec::new();
        script.push(Step::Write { reg: Reg::HostControl1, value: control1 });
        script.push(Step::Write { reg: Reg::HostControl2, value: control2 });
        assert(script@ =~= host_script(control1, control2));
        let written = run_plain::<B, K>(bus, script);
        let ghost mid = bus.seen();
        assert(done(host_script(control1, control2), old(bus).seen(), mid, written));
        match written {
            Ok(_) => {},
            Err(e) => {
                return Err(e);
            },
        }
        self.set_clock::<B, K>(bus, clock_for(mode))
    }

    /// Plays one stage of a mode setup: asks the card for the mode, sets
    /// the host up for it, and tunes the sampling point where asked.
    pub fn stage<B: Bus, K: Kernel>(
        &mut self,
        bus: &mut Traced<B>,
        mode: TimingMode,
        voltage: Voltage,
        with_tuning: bool,
    ) -> (r: Result<(), SdError>)
        requires
            old(self).wf(),
        ensures
            final(self).wf(),
            staged(
                *old(self),
                mode,
                voltage,
                with_tuning,
                *final(self),
                old(bus).seen(),
                final(bus).seen(),
                r,
            ),
    {
        let legacy = match mode {
            TimingMode::Legacy => true,
            _ => false,
        };
        let asked_card = if legacy {
            Ok(())
        } else {
            self.switch_card::<B, K>(bus, mode)
        };
        let ghost t1 = bus.seen();
        assert(asked(*old(self), mode, old(bus).seen(), t1, asked_card));
        match asked_card {
            Ok(_) => {},
            Err(e) => {
                return Err(e);
            },
        }
        let programmed_host = self.program_host::<B, K>(bus, mode, voltage);
        let ghost mid = *self;
        let ghost t2 = bus.seen();
        assert(programmed(*old(self), mode, voltage, mid, t1, t2, programmed_host));
        match programmed_host {
            Ok(_) => {},
            Err(e) => {
                assert(set_up(*old(self), mode, voltage, with_tuning, *self, t1, t2, Err(e)));
                return Err(e);
            },
        }
        let r = if with_tuning {
            let opcode: u8 = match self.session.family {
                Family::Mmc => 21,
                _ => 19,
            };
            let block_len: u32 = match self.session.width {
                BusWidth::Eight => 128,
                _ => 64,
            };
            let r = tune::<B, K>(bus, opcode, block_len, encode_control2(mode, voltage));
            self.tuned = match r {
                Ok(_) => true,
                Err(_) => false,
            };
            r
        } else {
            Ok(())
        };
        proof {
            assert(finished(mid, mode, voltage, with_tuning, *self, t2, bus.seen(), r));
            assert(set_up(*old(self), mode, voltage, with_tuning, *self, t1, bus.seen(), r));
        }
        r
    }

    /// Sets card and host up for a timing mode, without recording the mode:
    /// the signaling voltage is switched where the mode needs 1.8 V, the
    /// card is asked to change, the host follows at the clock of the mode,
    /// and the sampling point is tuned where the mode needs it.  The
    /// fastest MMC mode is reached through the next slower one, in which
    /// the tuning takes place.  A card that is not selected and a clock
    /// that is off are refused with `InvalidArgument` before anything
    /// touches the bus.  When the result is `Ok`, the host runs at the
    /// clock of the mode and is tuned where the mode needs it.
    pub fn apply_mode<B: Bus, K: Kernel>(&mut self, bus: &mut Traced<B>, mode: TimingMode) -> (r:
        Result<(), SdError>)
        requires
            old(self).wf(),
        ensures
            final(self).wf(),
            mode_set(*old(self), mode, *final(self), old(bus).seen(), final(bus).seen(), r),
            !old(self).session.card.selected || old(self).clock_hz == 0 ==> *final(bus) == *old(
                bus,
            ),
            kept(*old(self), *final(self)),
            r is Ok ==> clocked(*final(self), mode_clock(mode)),
            r is Ok && needs_tuning(mode) ==> final(self).tuned,
    {
        if !self.session.card.selected || self.clock_hz == 0 {
            return Err(SdError::InvalidArgument);
        }
        let low = match self.session.voltage {
            Voltage::V180 => false,
            _ => mode_needs_low_voltage(mode),
        };
        let lowered_voltage = if low {
            self.apply_voltage::<B, K>(bus, Voltage::V180)
        } else {
            Ok(())
        };
        let ghost t1 = bus.seen();
        self.tuned = false;
        let ghost start = *self;
        assert(start == untuned(*old(self)));
        assert(low == must_lower(*old(self), mode));
        assert(lowered(*old(self), low, old(bus).seen(), t1, lowered_voltage));
        let voltage = match lowered_voltage {
            Ok(_) => if low {
                Voltage::V180
            } else {
                self.session.voltage
            },
            Err(e) => {
                return Err(e);
            },
        };
        assert(voltage == staging_voltage(*old(self), mode));
        let r = match mode {
            TimingMode::Hs400 => {
                let first = self.stage::<B, K>(bus, TimingMode::Hs200, voltage, true);
                let ghost mid = *self;
                let ghost t2 = bus.seen();
                assert(staged(start, TimingMode::Hs200, voltage, true, mid, t1, t2, first));
                match first {
                    Ok(_) => {
                        let r = self.stage::<B, K>(bus, TimingMode::Hs400, voltage, false);
                        assert(laddered(start, voltage, mode, *self, t1, bus.seen(), r));
                        r
                    },
                    Err(e) => {
                        assert(laddered(start, voltage, mode, *self, t1, bus.seen(), Err(e)));
                        Err(e)
                    },
                }
            },
            _ => {
                let r = self.stage::<B, K>(bus, mode, voltage, mode_needs_tuning(mode));
                assert(laddered(start, voltage, mode, *self, t1, bus.seen(), r));
                r
            },
        };
        proof {
            assert(mode_applied(*old(self), mode, *self, old(bus).seen(), bus.seen(), r));
            lemma_mode_applied(*old(self), mode, *self, old(bus).seen(), bus.seen(), r);
        }
        r
    }
}

} // verus!
