//! The host controller: the operating parameters of one controller, the
//! session with its card, and the operations that drive both over a bus.

use crate::card::{Card, Family, Modes};
use crate::command::{execute_on, executed, Command, Response, ResponseType};
use crate::err::SdError;
use crate::regs::{Access, Bus, Kernel, Reg, Traced};
use crate::script::{done, run_plain, Step};
use crate::session::{HostCaps, Session, SessionState};
use crate::signal::{
    build_clock_script, build_voltage_script, clock_of, clock_script, control1_word,
    control2_word, divider_for, encode_control1, encode_control2, mode_needs_tuning,
    needs_tuning, voltage_script, BusWidth, TimingMode, Voltage, MAX_DIVIDER,
};
use crate::tuning::{tune, tuned_by};
use vstd::prelude::*;

verus! {

/// The bus clock during identification, in hertz.
pub const IDENTIFICATION_HZ: u32 = 400_000;
/// The base clock assumed where none is given, in hertz.
pub const DEFAULT_BASE_HZ: u32 = 200_000_000;

/// One host controller.  It owns the operating parameters of the
/// controller and the session with the card behind it; the register block
/// itself is reached through the bus handed to each operation.
#[derive(Clone, Copy, Debug, PartialEq, Eq)]
pub struct EMmcHost {
    /// Where the register block lies; the engine only carries it.
    pub base: usize,
    /// The clock the divider divides, in hertz.
    pub base_clock_hz: u32,
    /// The bus clock in hertz; zero while the clock is gated off.
    pub clock_hz: u32,
    /// The divider in use.
    pub divider: u32,
    /// Data moves by descriptor chain instead of programmed I/O.
    pub dma: bool,
    /// The sampling point is tuned for the timing mode in use.
    pub tuned: bool,
    /// The session with the card.
    pub session: Session,
}

/// Every timing mode, eight data lines and 1.8 V signaling.
pub open spec fn full_caps() -> HostCaps {
    HostCaps {
        modes: Modes { high_speed: true, sdr50: true, sdr104: true, hs200: true, hs400: true },
        eight_bit: true,
        low_voltage: true,
    }
}

/// The tuning command of a protocol family.
pub open spec fn tuning_opcode(family: Family) -> u8 {
    if family == Family::Mmc { 21 } else { 19 }
}

/// The length of the tuning block on a bus of the given width.
pub open spec fn tuning_block_len(width: BusWidth) -> u32 {
    if width == BusWidth::Eight { 128 } else { 64 }
}

/// The command that asks the card for a bus width: a switch of the
/// extended register for MMC, the application command for SD.
pub open spec fn width_command(family: Family, width: BusWidth) -> Command {
    if family == Family::Mmc {
        Command {
            opcode: 6,
            argument: 0x03B7_0000 | (match width {
                BusWidth::One => 0u32,
                BusWidth::Four => 0x100,
                BusWidth::Eight => 0x200,
            }),
            response: ResponseType::R1b,
            data: false,
            app: false,
        }
    } else {
        Command {
            opcode: 6,
            argument: if width == BusWidth::One { 0 } else { 2 },
            response: ResponseType::R1,
            data: false,
            app: true,
        }
    }
}

/// The card status bit that reports a failed switch.
pub const CARD_SWITCH_ERROR: u32 = 0x0000_0080;

/// Whether the card has acknowledged the bus width, from the outcome of
/// the command that asked for it.  A card that answers with an error of
/// its own, or reports a failed switch, has not: the widths of host and
/// card would differ, which is `BusWidth`.  Other failures stay what they
/// are.
pub open spec fn width_ack(outcome: Result<Response, SdError>) -> Result<(), SdError> {
    match outcome {
        Ok(r) => if r.low_word() & CARD_SWITCH_ERROR != 0 {
            Err(SdError::BusWidth)
        } else {
            Ok(())
        },
        Err(SdError::CardError(_, _)) => Err(SdError::BusWidth),
        Err(e) => Err(e),
    }
}

/// Judges the outcome of the command that asked the card for a bus width.
pub fn judge_width(outcome: &Result<Response, SdError>) -> (r: Result<(), SdError>)
    ensures
        r == width_ack(*outcome),
{
    match outcome {
        Ok(r) => {
            if ((r.raw & 0xFFFF_FFFF) as u32) & CARD_SWITCH_ERROR != 0 {
                Err(SdError::BusWidth)
            } else {
                Ok(())
            }
        },
        Err(SdError::CardError(_, _)) => Err(SdError::BusWidth),
        Err(e) => Err(*e),
    }
}

/// Setting the host to a bus width.
pub open spec fn width_script(control: u32) -> Seq<Step> {
    seq![Step::Write { reg: Reg::HostControl1, value: control }]
}

/// `r` is what asking for a bus width returns for the answers that the bus
/// gave, with the record of the bus before and after: the card is asked
/// first, and only a card that acknowledged is followed by the host.
pub open spec fn widened(
    family: Family,
    rca: u16,
    width: BusWidth,
    control: u32,
    before: Seq<Access>,
    after: Seq<Access>,
    r: Result<(), SdError>,
) -> bool {
    exists|outcome: Result<Response, SdError>, mid: Seq<Access>| #[trigger]
        executed(width_command(family, width), rca, before, mid, outcome) && match width_ack(
            outcome,
        ) {
            Err(e) => r == Err::<(), SdError>(e) && after == mid,
            Ok(_) => done(width_script(control), mid, after, r),
        }
}

/// What a command returns on a host, with the record of the bus before and
/// after.  While the bus clock is off, and for a command whose index does
/// not fit, the command is refused and nothing happens on the bus.
pub open spec fn commanded(
    h: EMmcHost,
    cmd: Command,
    before: Seq<Access>,
    after: Seq<Access>,
    r: Result<Response, SdError>,
) -> bool {
    if h.clock_hz == 0 || !cmd.valid() {
        r == Err::<Response, SdError>(SdError::InvalidArgument) && after == before
    } else {
        executed(cmd, h.session.card.rca, before, after, r)
    }
}

/// Whether the host runs the fastest bus clock its divider can make that
/// is no faster than `hz`: no smaller divider would do, and the divider in
/// use does unless it is the largest there is.
pub open spec fn clocked(h: EMmcHost, hz: u32) -> bool {
    let d = h.divider as int;
    let base = h.base_clock_hz as int;
    &&& clock_of(base, d) <= hz || d == MAX_DIVIDER
    &&& forall|e: int| 0 <= e < d ==> clock_of(base, e) > hz
    &&& h.clock_hz == clock_of(base, d)
}

/// What a change of the bus clock to `hz` makes of a host, and what it
/// returns, with the record of the bus before and after.  A target or a
/// base clock of zero is refused and changes nothing.  Otherwise the
/// divider is the smallest whose clock is no faster than `hz`, or the
/// largest there is; the bus sees the clock script for that divider; and
/// the clock is on at the divided rate when the result is `Ok`, off when it
/// is not.
pub open spec fn reclocked(
    h: EMmcHost,
    hz: u32,
    after: EMmcHost,
    t0: Seq<Access>,
    t1: Seq<Access>,
    r: Result<(), SdError>,
) -> bool {
    if hz == 0 || h.base_clock_hz == 0 {
        r == Err::<(), SdError>(SdError::InvalidArgument) && after == h && t1 == t0
    } else {
        let d = after.divider as int;
        let base = h.base_clock_hz as int;
        &&& after == (EMmcHost { divider: after.divider, clock_hz: after.clock_hz, ..h })
        &&& d <= MAX_DIVIDER
        &&& clock_of(base, d) <= hz || d == MAX_DIVIDER
        &&& forall|e: int| 0 <= e < d ==> clock_of(base, e) > hz
        &&& done(clock_script(after.divider), t0, t1, r)
        &&& r is Ok ==> after.clock_hz == clock_of(base, d)
        &&& r is Err ==> after.clock_hz == 0
    }
}

/// What asking card and host for a bus width returns, with the record of
/// the bus before and after.  A card that is not selected and a clock that
/// is off are refused with `InvalidArgument`, and an eight-bit bus for an
/// SD card, which has none, with `BusWidth`; nothing happens on the bus
/// then.
pub open spec fn width_asked(
    h: EMmcHost,
    width: BusWidth,
    t0: Seq<Access>,
    t1: Seq<Access>,
    r: Result<(), SdError>,
) -> bool {
    if !h.session.card.selected || h.clock_hz == 0 {
        r == Err::<(), SdError>(SdError::InvalidArgument) && t1 == t0
    } else if h.session.family != Family::Mmc && width == BusWidth::Eight {
        r == Err::<(), SdError>(SdError::BusWidth) && t1 == t0
    } else {
        widened(
            h.session.family,
            h.session.card.rca,
            width,
            control1_word(width, h.session.timing, h.dma),
            t0,
            t1,
            r,
        )
    }
}

/// What a switch of the signaling voltage returns, with the record of the
/// bus before and after.
pub open spec fn voltage_switched(
    h: EMmcHost,
    target: Voltage,
    t0: Seq<Access>,
    t1: Seq<Access>,
    r: Result<(), SdError>,
) -> bool {
    done(voltage_script(target, h.session.timing, h.divider), t0, t1, r)
}

/// What a tuning run for a mode returns on a host, with the record of the
/// bus before and after.  A mode that needs no tuning, a card that is not
/// selected and a clock that is off are refused with `InvalidArgument`, and
/// nothing happens on the bus then.
pub open spec fn tuning_run(
    h: EMmcHost,
    mode: TimingMode,
    t0: Seq<Access>,
    t1: Seq<Access>,
    r: Result<(), SdError>,
) -> bool {
    if !needs_tuning(mode) || !h.session.card.selected || h.clock_hz == 0 {
        r == Err::<(), SdError>(SdError::InvalidArgument) && t1 == t0
    } else {
        tuned_by(
            tuning_opcode(h.session.family),
            tuning_block_len(h.session.width),
            control2_word(mode, h.session.voltage),
            t0,
            t1,
            r,
        )
    }
}

impl EMmcHost {
    /// The host is in a state it can reach.
    pub open spec fn wf(self) -> bool {
        &&& self.session.wf()
        &&& self.divider <= MAX_DIVIDER
    }

    /// A host for the controller at `base`, with every capability and the
    /// default base clock, moving data by programmed I/O.
    pub fn new(base: usize) -> (h: EMmcHost)
        ensures
            h.wf(),
            h.base == base,
            h.base_clock_hz == DEFAULT_BASE_HZ,
            h.clock_hz == 0,
            !h.dma,
            !h.tuned,
            h.session == crate::session::fresh(full_caps()),
    {
        EMmcHost {
            base,
            base_clock_hz: DEFAULT_BASE_HZ,
            clock_hz: 0,
            divider: 0,
            dma: false,
            tuned: false,
            session: Session::new(
                HostCaps {
                    modes: Modes {
                        high_speed: true,
                        sdr50: true,
                        sdr104: true,
                        hs200: true,
                        hs400: true,
                    },
                    eight_bit: true,
                    low_voltage: true,
                },
            ),
        }
    }

    /// A host for the controller at `base` with the given base clock and
    /// capabilities; `dma` chooses descriptor transfers.
    pub fn with_caps(base: usize, base_clock_hz: u32, caps: HostCaps, dma: bool) -> (h: EMmcHost)
        ensures
            h.wf(),
            h.base == base,
            h.base_clock_hz == base_clock_hz,
            h.clock_hz == 0,
            h.dma == dma,
            !h.tuned,
            h.session == crate::session::fresh(caps),
    {
        EMmcHost {
            base,
            base_clock_hz,
            clock_hz: 0,
            divider: 0,
            dma,
            tuned: false,
            session: Session::new(caps),
        }
    }

    /// The state of the session.
    pub fn state(&self) -> (s: SessionState)
        ensures
            s == self.session.state,
    {
        self.session.state
    }

    /// What is known of the card.
    pub fn card(&self) -> (c: Card)
        ensures
            c == self.session.card,
    {
        self.session.card
    }

    /// The bus width in use.
    pub fn bus_width(&self) -> (w: BusWidth)
        ensures
            w == self.session.width,
    {
        self.session.width
    }

    /// The timing mode in use.
    pub fn timing(&self) -> (m: TimingMode)
        ensures
            m == self.session.timing,
    {
        self.session.timing
    }

    /// The signaling voltage in use.
    pub fn voltage(&self) -> (v: Voltage)
        ensures
            v == self.session.voltage,
    {
        self.session.voltage
    }

    /// Executes a command without data.  While the bus clock is off, or for
    /// a command whose index does not fit, nothing touches the bus and the
    /// result is `InvalidArgument`.  A command issued while another is in
    /// flight is refused by its own script, after one look at the present
    /// state.  The host is the same after the command as before it,
    /// whatever the result.
    pub fn execute<B: Bus, K: Kernel>(&self, bus: &mut Traced<B>, cmd: &Command) -> (r: Result<
        Response,
        SdError,
    >)
        ensures
            commanded(*self, *cmd, old(bus).seen(), final(bus).seen(), r),
            self.clock_hz == 0 || !cmd.valid() ==> *final(bus) == *old(bus),
    {
        if self.clock_hz == 0 {
            return Err(SdError::InvalidArgument);
        }
        execute_on::<B, K>(bus, cmd, self.session.card.rca)
    }

    /// Sets the bus clock to the fastest the divider can make that is no
    /// faster than `hz`: the clock is gated off, the divider programmed,
    /// and the clock gated on again once it is stable.  A clock that does
    /// not come back leaves the host with its clock off, so that no command
    /// can be issued on it.
    pub fn set_clock<B: Bus, K: Kernel>(&mut self, bus: &mut Traced<B>, hz: u32) -> (r: Result<
        (),
        SdError,
    >)
        requires
            old(self).wf(),
        ensures
            final(self).wf(),
            reclocked(*old(self), hz, *final(self), old(bus).seen(), final(bus).seen(), r),
            hz == 0 || old(self).base_clock_hz == 0 ==> *final(bus) == *old(bus),
    {
        let d = match divider_for(self.base_clock_hz, hz) {
            Some(d) => d,
            None => {
                return Err(SdError::InvalidArgument);
            },
        };
        let script = build_clock_script(d);
        let r = run_plain::<B, K>(bus, script);
        self.divider = d;
        match r {
            Ok(_) => {
                self.clock_hz = if d == 0 {
                    self.base_clock_hz
                } else {
                    self.base_clock_hz / (2 * d)
                };
            },
            Err(_) => {
                self.clock_hz = 0;
            },
        }
        r
    }

    /// Asks the card and then the host for a bus width, without recording
    /// it.
    pub fn apply_width<B: Bus, K: Kernel>(&self, bus: &mut Traced<B>, width: BusWidth) -> (r:
        Result<(), SdError>)
        ensures
            width_asked(*self, width, old(bus).seen(), final(bus).seen(), r),
            !self.session.card.selected || self.clock_hz == 0 || (self.session.family
                != Family::Mmc && width == BusWidth::Eight) ==> *final(bus) == *old(bus),
    {
        if !self.session.card.selected || self.clock_hz == 0 {
            return Err(SdError::InvalidArgument);
        }
        let mmc = match self.session.family {
            Family::Mmc => true,
            _ => false,
        };
        let cmd = if mmc {
            Command::new(
                6,
                0x03B7_0000 | (match width {
                    BusWidth::One => 0u32,
                    BusWidth::Four => 0x100,
                    BusWidth::Eight => 0x200,
                }),
                ResponseType::R1b,
            )
        } else {
            match width {
                BusWidth::Eight => {
                    return Err(SdError::BusWidth);
                },
                BusWidth::One => Command::app(6, 0, ResponseType::R1),
                BusWidth::Four => Command::app(6, 2, ResponseType::R1),
            }
        };
        assert(cmd == width_command(self.session.family, width));
        let outcome = execute_on::<B, K>(bus, &cmd, self.session.card.rca);
        let ghost mid = bus.seen();
        assert(executed(
            width_command(self.session.family, width),
            self.session.card.rca,
            old(bus).seen(),
            mid,
            outcome,
        ));
        match judge_width(&outcome) {
            Err(e) => Err(e),
            Ok(_) => {
                let control = encode_control1(width, self.session.timing, self.dma);
                let mut script: Vec<Step> = Vec::new();
                script.push(Step::Write { reg: Reg::HostControl1, value: control });
                assert(script@ =~= width_script(control));
                run_plain::<B, K>(bus, script)
            },
        }
    }

    /// Sets the bus width: the card is asked first, and the host follows
    /// only once the card has acknowledged.  An eight-bit bus is refused
    /// for an SD card, which has none, with `BusWidth`.  The width is
    /// recorded only when both card and host have taken it.
    pub fn set_bus_width<B: Bus, K: Kernel>(&mut self, bus: &mut Traced<B>, width: BusWidth) -> (r:
        Result<(), SdError>)
        requires
            old(self).wf(),
        ensures
            final(self).wf(),
            width_asked(*old(self), width, old(bus).seen(), final(bus).seen(), r),
            r is Ok ==> *final(self) == (EMmcHost {
                session: Session { width, ..old(self).session },
                ..*old(self)
            }),
            r is Err ==> *final(self) == *old(self),
            !old(self).session.card.selected || old(self).clock_hz == 0 || (old(
                self,
            ).session.family != Family::Mmc && width == BusWidth::Eight) ==> *final(bus) == *old(
                bus,
            ),
    {
        let r = self.apply_width::<B, K>(bus, width);
        match r {
            Ok(_) => {
                self.session.width = width;
            },
            Err(_) => {},
        }
        r
    }

    /// Switches the signaling voltage without recording it.
    pub fn apply_voltage<B: Bus, K: Kernel>(&self, bus: &mut Traced<B>, target: Voltage) -> (r:
        Result<(), SdError>)
        ensures
            voltage_switched(*self, target, old(bus).seen(), final(bus).seen(), r),
    {
        let script = build_voltage_script(target, self.session.timing, self.divider);
        run_plain::<B, K>(bus, script)
    }

    /// Switches the signaling voltage: the card clock is stopped, the
    /// voltage selected, and after the settle window the clock is started
    /// again; the data lines must then return high within a bounded window,
    /// else the switch has failed with `VoltageSwitchFailed`.  A switch to
    /// the voltage in use does nothing.
    pub fn switch_voltage<B: Bus, K: Kernel>(&mut self, bus: &mut Traced<B>, target: Voltage) -> (r:
        Result<(), SdError>)
        requires
            old(self).wf(),
        ensures
            final(self).wf(),
            target == old(self).session.voltage ==> r is Ok && *final(self) == *old(self)
                && *final(bus) == *old(bus),
            target != old(self).session.voltage ==> voltage_switched(
                *old(self),
                target,
                old(bus).seen(),
                final(bus).seen(),
                r,
            ),
            r is Ok ==> *final(self) == (EMmcHost {
                session: Session { voltage: target, ..old(self).session },
                ..*old(self)
            }),
            r is Err ==> *final(self) == *old(self),
    {
        let same = match (self.session.voltage, target) {
            (Voltage::V330, Voltage::V330) => true,
            (Voltage::V180, Voltage::V180) => true,
            _ => false,
        };
        if same {
            return Ok(());
        }
        let r = self.apply_voltage::<B, K>(bus, target);
        match r {
            Ok(_) => {
                self.session.voltage = target;
            },
            Err(_) => {},
        }
        r
    }

    /// Tunes the sampling point for a timing mode.  A mode that needs no
    /// tuning, a card that is not selected and a clock that is off are
    /// refused with `InvalidArgument` before anything touches the bus.
    /// Otherwise the tuning command is issued until the controller ends its
    /// sweep, at most a fixed number of times; the host is tuned exactly
    /// when the run returns `Ok`, and the run fails with `TuningFailed`
    /// only.
    pub fn run_tuning<B: Bus, K: Kernel>(&mut self, bus: &mut Traced<B>, mode: TimingMode) -> (r:
        Result<(), SdError>)
        requires
            old(self).wf(),
        ensures
            final(self).wf(),
            tuning_run(*old(self), mode, old(bus).seen(), final(bus).seen(), r),
            !needs_tuning(mode) || !old(self).session.card.selected || old(self).clock_hz == 0
                ==> *final(self) == *old(self) && *final(bus) == *old(bus),
            needs_tuning(mode) && old(self).session.card.selected && old(self).clock_hz != 0 ==> {
                &&& *final(self) == (EMmcHost { tuned: r is Ok, ..*old(self) })
                &&& r is Err ==> r == Err::<(), SdError>(SdError::TuningFailed)
            },
    {
        if !mode_needs_tuning(mode) || !self.session.card.selected || self.clock_hz == 0 {
            return Err(SdError::InvalidArgument);
        }
        let opcode: u8 = match self.session.family {
            Family::Mmc => 21,
            _ => 19,
        };
        let block_len: u32 = match self.session.width {
            BusWidth::Eight => 128,
            _ => 64,
        };
        let control = encode_control2(mode, self.session.voltage);
        let r = tune::<B, K>(bus, opcode, block_len, control);
        self.tuned = match r {
            Ok(_) => true,
            Err(_) => false,
        };
        r
    }

    /// Tears the session down: the host is as before its first power-up.
    pub fn power_off(&mut self)
        ensures
            final(self).wf(),
            *final(self) == (EMmcHost {
                clock_hz: 0,
                divider: 0,
                tuned: false,
                session: crate::session::fresh(old(self).session.caps),
                ..*old(self)
            }),
    {
        self.session = Session::new(self.session.caps);
        self.clock_hz = 0;
        self.divider = 0;
        self.tuned = false;
    }
}

} // verus!
