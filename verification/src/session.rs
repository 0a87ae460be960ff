//! The card session state machine: from power-off, through identification,
//! to a selected card with a negotiated bus.
//!
//! The machine decides; it performs nothing.  It names the next thing to be
//! done on the bus, is told how that went, and moves on.  A failure before
//! the card is selected faults the session.  A failure while the bus width
//! or the timing mode is negotiated does not: the session falls back to the
//! next narrower width or the next slower mode, and faults only when even
//! the legacy mode cannot be set up.

use crate::card::{
    blank_card, csd_capacity, csd_switch_class, device_modes, judge_power_up, modes_of_device,
    parse_csd, power_up_verdict, Card, CardType, ExtCsd, Family, Modes, PowerUp,
    OCR_ATTEMPTS, OCR_HIGH_CAPACITY, OCR_HOST_WINDOW, OCR_LOW_VOLTAGE,
};
use crate::command::{Command, Response, ResponseType};
use crate::err::SdError;
use crate::signal::{BusWidth, TimingMode, Voltage};
use vstd::prelude::*;

verus! {

/// The states of a session.
#[derive(Clone, Copy, Debug, PartialEq, Eq)]
pub enum SessionState {
    PowerOff,
    Idle,
    ReadyCheck,
    Identification,
    StandBy,
    Transfer,
    /// The session has failed with this error.
    Faulted(SdError),
}

/// What the session waits for.
#[derive(Clone, Copy, Debug, PartialEq, Eq)]
pub enum Phase {
    /// Power applied to the bus.
    PowerUp,
    /// The answer to `GO_IDLE_STATE`.
    GoIdle,
    /// The answer to `SEND_IF_COND`.
    IfCond,
    /// The answer to the SD operating conditions command.
    SdOpCond,
    /// The answer to the MMC operating conditions command.
    MmcOpCond,
    /// The answer to the command that announces the voltage switch.
    SwitchCommand,
    /// The signaling voltage switched.
    SwitchVoltage,
    /// The answer to `ALL_SEND_CID`.
    AllSendCid,
    /// The answer to the relative address command.
    RelativeAddr,
    /// The answer to `SEND_CSD`.
    SendCsd,
    /// The answer to `SELECT_CARD`.
    Select,
    /// The extended card specific data.
    ExtCsd,
    /// The bus set up at this width.
    Width(BusWidth),
    /// The bus set up in this timing mode.
    Mode(TimingMode),
    /// Nothing: the card is ready for block transfers.
    Ready,
    /// Nothing: the session has faulted.
    Failed,
}

/// What the session asks to be done next.
#[derive(Clone, Copy, Debug, PartialEq, Eq)]
pub enum Request {
    /// Reset the controller and power the bus at the identification clock.
    PowerUp,
    /// Execute the command.
    Command(Command),
    /// Switch the signaling voltage.
    Voltage(Voltage),
    /// Read the extended card specific data.
    ReadExtCsd,
    /// Set the card and then the host to this bus width.
    Width(BusWidth),
    /// Set the card and then the host up for this timing mode.
    Mode(TimingMode),
    /// Nothing is left to do.
    Nothing,
}

/// How a request went.
#[derive(Clone, Copy, Debug, PartialEq, Eq)]
pub enum Outcome {
    /// It was done.
    Done,
    /// The command was answered.
    Response(Response),
    /// The extended card specific data was read.
    ExtCsd(ExtCsd),
    /// It failed.
    Failed(SdError),
}

/// What the host can do.
#[derive(Clone, Copy, Debug, PartialEq, Eq)]
pub struct HostCaps {
    /// The timing modes the host supports.
    pub modes: Modes,
    /// The host has eight data lines.
    pub eight_bit: bool,
    /// The host can signal at 1.8 V.
    pub low_voltage: bool,
}

/// A session with one card.
#[derive(Clone, Copy, Debug, PartialEq, Eq)]
pub struct Session {
    pub state: SessionState,
    pub phase: Phase,
    pub family: Family,
    /// The card answered `SEND_IF_COND`.
    pub v2: bool,
    /// Answers to the operating conditions command so far.
    pub attempts: u32,
    pub card: Card,
    /// The bus width in use.
    pub width: BusWidth,
    /// The timing mode in use.
    pub timing: TimingMode,
    /// The signaling voltage in use.
    pub voltage: Voltage,
    pub caps: HostCaps,
}

/// The relative address the host assigns to an MMC card.
pub const MMC_RCA: u16 = 1;
/// The voltage range and check pattern sent with `SEND_IF_COND`.
pub const IF_COND_PATTERN: u32 = 0x1AA;
/// The capacity in blocks above which an SD card is of extended capacity.
pub const SDXC_BLOCKS: u64 = 0x0400_0000;

/// The place of a timing mode on the ladder, the legacy mode lowest.
pub open spec fn rank(mode: TimingMode) -> int {
    match mode {
        TimingMode::Legacy => 0,
        TimingMode::HighSpeed => 1,
        TimingMode::Sdr50 => 2,
        TimingMode::Sdr104 => 3,
        TimingMode::Hs200 => 4,
        TimingMode::Hs400 => 5,
    }
}

/// The timing mode at a place on the ladder.
pub open spec fn mode_at(r: int) -> TimingMode {
    if r <= 0 {
        TimingMode::Legacy
    } else if r == 1 {
        TimingMode::HighSpeed
    } else if r == 2 {
        TimingMode::Sdr50
    } else if r == 3 {
        TimingMode::Sdr104
    } else if r == 4 {
        TimingMode::Hs200
    } else {
        TimingMode::Hs400
    }
}

/// The start of a session.
pub open spec fn fresh(caps: HostCaps) -> Session {
    Session {
        state: SessionState::PowerOff,
        phase: Phase::PowerUp,
        family: Family::Unknown,
        v2: false,
        attempts: 0,
        card: blank_card(),
        width: BusWidth::One,
        timing: TimingMode::Legacy,
        voltage: Voltage::V330,
        caps,
    }
}

/// The session faulted with `e`.
pub open spec fn fault(s: Session, e: SdError) -> Session {
    Session { state: SessionState::Faulted(e), phase: Phase::Failed, ..s }
}

/// Whether the session can use a timing mode: card and host support it,
/// and the bus is wide enough for it.
pub open spec fn usable(s: Session, mode: TimingMode) -> bool {
    &&& s.card.modes.has(mode)
    &&& s.caps.modes.has(mode)
    &&& mode == TimingMode::Hs400 ==> s.width == BusWidth::Eight
    &&& mode == TimingMode::Hs200 || mode == TimingMode::Sdr104 ==> s.width != BusWidth::One
}

/// The fastest usable timing mode at or below a place on the ladder.
pub open spec fn best_below(s: Session, limit: int) -> TimingMode
    decreases limit,
{
    if limit <= 0 {
        TimingMode::Legacy
    } else if usable(s, mode_at(limit)) {
        mode_at(limit)
    } else {
        best_below(s, limit - 1)
    }
}

/// The first bus width to try: the widest that card and host share.
pub open spec fn first_width(s: Session) -> BusWidth {
    if s.card.widest == BusWidth::Eight && s.caps.eight_bit {
        BusWidth::Eight
    } else if s.card.widest != BusWidth::One {
        BusWidth::Four
    } else {
        BusWidth::One
    }
}

/// The session as it starts to negotiate the timing mode, from the top of
/// the ladder.
pub open spec fn enter_mode(s: Session) -> Session {
    Session { phase: Phase::Mode(best_below(s, 5)), ..s }
}

/// The session as it starts to negotiate the bus width.
pub open spec fn enter_width(s: Session) -> Session {
    if first_width(s) == BusWidth::One {
        enter_mode(Session { width: BusWidth::One, ..s })
    } else {
        Session { phase: Phase::Width(first_width(s)), ..s }
    }
}

/// The session after the answer to `SEND_IF_COND`: a card that echoes the
/// pattern is an SD card of the second generation; one that stays silent is
/// an older SD card or an MMC card, which the next phase tells apart.
pub open spec fn after_if_cond(s: Session, o: Outcome) -> Session {
    match o {
        Outcome::Response(r) => match r.echo_of() {
            Ok(echo) => if echo == IF_COND_PATTERN {
                Session {
                    v2: true,
                    family: Family::Sd,
                    state: SessionState::ReadyCheck,
                    phase: Phase::SdOpCond,
                    attempts: 0,
                    ..s
                }
            } else {
                fault(s, SdError::UnsupportedCard)
            },
            Err(e) => fault(s, e),
        },
        Outcome::Failed(SdError::Timeout) => Session {
            v2: false,
            state: SessionState::ReadyCheck,
            phase: Phase::SdOpCond,
            attempts: 0,
            ..s
        },
        Outcome::Failed(e) => fault(s, e),
        _ => fault(s, SdError::InvalidResponse),
    }
}

/// The session once an SD card has reported its power-up done.
pub open spec fn sd_ready(s: Session, ocr: u32) -> Session {
    let card = Card {
        card_type: if ocr & OCR_HIGH_CAPACITY != 0 { CardType::Sdhc } else { CardType::Sd },
        supports_1v8: s.caps.low_voltage && ocr & OCR_LOW_VOLTAGE != 0,
        widest: BusWidth::Four,
        ..s.card
    };
    Session {
        family: Family::Sd,
        state: SessionState::Identification,
        phase: if card.supports_1v8 { Phase::SwitchCommand } else { Phase::AllSendCid },
        card,
        ..s
    }
}

/// The session after an answer to the SD operating conditions command.  A
/// card that never answered `SEND_IF_COND` and does not take the command
/// at the first attempt is taken for an MMC card.
pub open spec fn after_sd_op_cond(s: Session, o: Outcome) -> Session {
    match o {
        Outcome::Response(r) => match r.ocr_of() {
            Ok(ocr) => match power_up_verdict(ocr, s.attempts + 1) {
                PowerUp::Ready => sd_ready(s, ocr),
                PowerUp::Retry => Session { attempts: (s.attempts + 1) as u32, ..s },
                PowerUp::Fail(e) => fault(s, e),
            },
            Err(e) => fault(s, e),
        },
        Outcome::Failed(e) => if !s.v2 && s.attempts == 0 && (e == SdError::Timeout || e
            == SdError::CommandError) {
            Session { family: Family::Mmc, phase: Phase::MmcOpCond, attempts: 0, ..s }
        } else if e == SdError::Timeout {
            fault(s, SdError::NoCard)
        } else {
            fault(s, e)
        },
        _ => fault(s, SdError::InvalidResponse),
    }
}

/// The session after an answer to the MMC operating conditions command.
pub open spec fn after_mmc_op_cond(s: Session, o: Outcome) -> Session {
    match o {
        Outcome::Response(r) => match r.ocr_of() {
            Ok(ocr) => match power_up_verdict(ocr, s.attempts + 1) {
                PowerUp::Ready => Session {
                    family: Family::Mmc,
                    state: SessionState::Identification,
                    phase: Phase::AllSendCid,
                    card: Card {
                        card_type: if ocr & OCR_HIGH_CAPACITY != 0 {
                            CardType::Emmc
                        } else {
                            CardType::Mmc
                        },
                        widest: BusWidth::Eight,
                        ..s.card
                    },
                    ..s
                },
                PowerUp::Retry => Session { attempts: (s.attempts + 1) as u32, ..s },
                PowerUp::Fail(e) => fault(s, e),
            },
            Err(e) => fault(s, e),
        },
        Outcome::Failed(e) => if e == SdError::Timeout {
            fault(s, SdError::NoCard)
        } else {
            fault(s, e)
        },
        _ => fault(s, SdError::InvalidResponse),
    }
}

/// The session after the answers of the identification phase.
pub open spec fn after_identification(s: Session, o: Outcome) -> Session {
    match o {
        Outcome::Response(r) => match s.phase {
            Phase::SwitchCommand => Session { phase: Phase::SwitchVoltage, ..s },
            Phase::AllSendCid => match r.long_of() {
                Ok(raw) => Session {
                    phase: Phase::RelativeAddr,
                    card: Card { cid: raw, ..s.card },
                    ..s
                },
                Err(e) => fault(s, e),
            },
            Phase::RelativeAddr => if s.family == Family::Mmc {
                Session { phase: Phase::SendCsd, card: Card { rca: MMC_RCA, ..s.card }, ..s }
            } else {
                match r.rca_of() {
                    Ok(rca) => Session {
                        phase: Phase::SendCsd,
                        card: Card { rca, ..s.card },
                        ..s
                    },
                    Err(e) => fault(s, e),
                }
            },
            Phase::SendCsd => match r.long_of() {
                Ok(raw) => with_csd(s, raw),
                Err(e) => fault(s, e),
            },
            _ => selected(s),
        },
        Outcome::Failed(e) => fault(s, e),
        _ => fault(s, SdError::InvalidResponse),
    }
}

/// The session once the card is selected: block transfers are possible,
/// and the negotiation of the bus starts, for an MMC card with the reading
/// of its extended register.
pub open spec fn selected(s: Session) -> Session {
    let t = Session {
        state: SessionState::Transfer,
        card: Card { selected: true, ..s.card },
        ..s
    };
    if s.family == Family::Mmc {
        Session { phase: Phase::ExtCsd, ..t }
    } else {
        enter_width(t)
    }
}

/// The session once the card specific data is known: the capacity, the
/// modes of an SD card, and the standby state.
pub open spec fn with_csd(s: Session, raw: u128) -> Session {
    let capacity = csd_capacity(raw, s.family);
    let fast = s.family == Family::Sd && csd_switch_class(raw);
    let card = Card {
        capacity_blocks: capacity,
        card_type: if s.card.card_type == CardType::Sdhc && capacity > SDXC_BLOCKS {
            CardType::Sdxc
        } else {
            s.card.card_type
        },
        modes: Modes {
            high_speed: fast,
            sdr50: fast && s.voltage == Voltage::V180,
            sdr104: fast && s.voltage == Voltage::V180,
            hs200: false,
            hs400: false,
        },
        ..s.card
    };
    Session { state: SessionState::StandBy, phase: Phase::Select, card, ..s }
}

/// The session once the extended card specific data is known.
pub open spec fn with_ext_csd(s: Session, x: ExtCsd) -> Session {
    enter_width(
        Session {
            card: Card {
                capacity_blocks: if s.card.card_type == CardType::Emmc {
                    x.sectors as u64
                } else {
                    s.card.capacity_blocks
                },
                modes: device_modes(x.device_type),
                ..s.card
            },
            ..s
        },
    )
}

/// The session after an attempt at a bus width: the width is in use, or
/// the next narrower one is tried; the one-bit bus needs no attempt.
pub open spec fn after_width(s: Session, w: BusWidth, o: Outcome) -> Session {
    match o {
        Outcome::Done => enter_mode(Session { width: w, ..s }),
        _ => if w == BusWidth::Eight {
            Session { phase: Phase::Width(BusWidth::Four), ..s }
        } else {
            enter_mode(Session { width: BusWidth::One, ..s })
        },
    }
}

/// The error of an attempt that did not succeed.
pub open spec fn failure(o: Outcome) -> SdError {
    match o {
        Outcome::Failed(e) => e,
        _ => SdError::InvalidResponse,
    }
}

/// The session after an attempt at a timing mode: the mode is in use, or
/// the next slower usable one is tried; only the legacy mode failing
/// faults the session.
pub open spec fn after_mode(s: Session, m: TimingMode, o: Outcome) -> Session {
    match o {
        Outcome::Done => Session {
            timing: m,
            voltage: if crate::signal::needs_low_voltage(m) { Voltage::V180 } else { s.voltage },
            phase: Phase::Ready,
            ..s
        },
        _ => if m == TimingMode::Legacy {
            fault(s, failure(o))
        } else {
            Session { phase: Phase::Mode(best_below(s, rank(m) - 1)), ..s }
        },
    }
}

/// The session after the outcome of what it asked for.
#[verifier::opaque]
pub open spec fn stepped(s: Session, o: Outcome) -> Session {
    match s.phase {
        Phase::Ready | Phase::Failed => s,
        Phase::PowerUp => match o {
            Outcome::Done => Session { phase: Phase::GoIdle, ..s },
            _ => fault(s, failure(o)),
        },
        Phase::GoIdle => match o {
            Outcome::Done | Outcome::Response(_) => Session {
                state: SessionState::Idle,
                phase: Phase::IfCond,
                ..s
            },
            _ => fault(s, failure(o)),
        },
        Phase::IfCond => after_if_cond(s, o),
        Phase::SdOpCond => after_sd_op_cond(s, o),
        Phase::MmcOpCond => after_mmc_op_cond(s, o),
        Phase::SwitchVoltage => match o {
            Outcome::Done => Session { voltage: Voltage::V180, phase: Phase::AllSendCid, ..s },
            _ => fault(s, failure(o)),
        },
        Phase::ExtCsd => match o {
            Outcome::ExtCsd(x) => with_ext_csd(s, x),
            _ => fault(s, failure(o)),
        },
        Phase::Width(w) => after_width(s, w, o),
        Phase::Mode(m) => after_mode(s, m, o),
        _ => after_identification(s, o),
    }
}

/// What the session asks for in its phase.
pub open spec fn request_of(s: Session) -> Request {
    match s.phase {
        Phase::PowerUp => Request::PowerUp,
        Phase::GoIdle => Request::Command(plain(0, 0, ResponseType::NoResponse)),
        Phase::IfCond => Request::Command(plain(8, IF_COND_PATTERN, ResponseType::R7)),
        Phase::SdOpCond => Request::Command(
            Command {
                opcode: 41,
                argument: op_cond_argument(s),
                response: ResponseType::R3,
                data: false,
                app: true,
            },
        ),
        Phase::MmcOpCond => Request::Command(
            plain(1, OCR_HOST_WINDOW | OCR_HIGH_CAPACITY, ResponseType::R3),
        ),
        Phase::SwitchCommand => Request::Command(plain(11, 0, ResponseType::R1)),
        Phase::SwitchVoltage => Request::Voltage(Voltage::V180),
        Phase::AllSendCid => Request::Command(plain(2, 0, ResponseType::R2)),
        Phase::RelativeAddr => if s.family == Family::Mmc {
            Request::Command(plain(3, (MMC_RCA as u32) << 16, ResponseType::R1))
        } else {
            Request::Command(plain(3, 0, ResponseType::R6))
        },
        Phase::SendCsd => Request::Command(plain(9, (s.card.rca as u32) << 16, ResponseType::R2)),
        Phase::Select => Request::Command(plain(7, (s.card.rca as u32) << 16, ResponseType::R1b)),
        Phase::ExtCsd => Request::ReadExtCsd,
        Phase::Width(w) => Request::Width(w),
        Phase::Mode(m) => Request::Mode(m),
        Phase::Ready | Phase::Failed => Request::Nothing,
    }
}

/// A command without data that needs no announcement.
pub open spec fn plain(opcode: u8, argument: u32, response: ResponseType) -> Command {
    Command { opcode, argument, response, data: false, app: false }
}

/// The argument of the SD operating conditions command: the host's voltage
/// window, the offer of high capacity to a card of the second generation,
/// and the request for 1.8 V where the host can signal so.
pub open spec fn op_cond_argument(s: Session) -> u32 {
    OCR_HOST_WINDOW | (if s.v2 { OCR_HIGH_CAPACITY } else { 0 }) | (if s.v2 && s.caps.low_voltage {
        OCR_LOW_VOLTAGE
    } else {
        0
    })
}

/// How far a session is from its end, at most.
pub open spec fn remaining(s: Session) -> int {
    match s.phase {
        Phase::Ready | Phase::Failed => 0,
        Phase::Mode(m) => 1 + rank(m),
        Phase::Width(w) => match w {
            BusWidth::One => 7,
            BusWidth::Four => 8,
            BusWidth::Eight => 9,
        },
        Phase::ExtCsd => 10,
        Phase::Select => 11,
        Phase::SendCsd => 12,
        Phase::RelativeAddr => 13,
        Phase::AllSendCid => 14,
        Phase::SwitchVoltage => 15,
        Phase::SwitchCommand => 16,
        Phase::MmcOpCond => 17 + (OCR_ATTEMPTS - s.attempts),
        Phase::SdOpCond => 18 + OCR_ATTEMPTS + (OCR_ATTEMPTS - s.attempts),
        Phase::IfCond => 19 + 2 * OCR_ATTEMPTS,
        Phase::GoIdle => 20 + 2 * OCR_ATTEMPTS,
        Phase::PowerUp => 21 + 2 * OCR_ATTEMPTS,
    }
}

/// The fastest usable mode below a place on the ladder lies at or below
/// that place, is usable, and no usable mode at or below the place is
/// faster.
pub proof fn lemma_best_below(s: Session, limit: int)
    requires
        0 <= limit <= 5,
    ensures
        0 <= rank(best_below(s, limit)) <= limit,
        usable(s, best_below(s, limit)),
        forall|m: TimingMode| usable(s, m) && rank(m) <= limit ==> rank(m) <= rank(best_below(s, limit)),
    decreases limit,
{
    if limit > 0 {
        lemma_best_below(s, limit - 1);
        assert forall|m: TimingMode| usable(s, m) && rank(m) <= limit implies rank(m) <= rank(
            best_below(s, limit),
        ) by {
            if rank(m) == limit {
                assert(m == mode_at(limit));
            }
        }
    }
}

impl Session {
    /// The session is in a state it can reach.
    pub open spec fn wf(self) -> bool {
        &&& self.attempts <= OCR_ATTEMPTS
        &&& self.phase is Failed <==> self.state is Faulted
        &&& self.phase is Ready || self.phase is Mode || self.phase is Width || self.phase is ExtCsd
            ==> self.state is Transfer
    }

    /// A session before power-up.
    pub fn new(caps: HostCaps) -> (s: Session)
        ensures
            s == fresh(caps),
            s.wf(),
    {
        Session {
            state: SessionState::PowerOff,
            phase: Phase::PowerUp,
            family: Family::Unknown,
            v2: false,
            attempts: 0,
            card: Card::blank(),
            width: BusWidth::One,
            timing: TimingMode::Legacy,
            voltage: Voltage::V330,
            caps,
        }
    }

    /// Whether the card is ready for block transfers.
    pub fn is_ready(&self) -> (b: bool)
        ensures
            b == (self.phase is Ready),
    {
        match self.phase {
            Phase::Ready => true,
            _ => false,
        }
    }

    /// Whether the session can use a timing mode.
    pub fn can_use(&self, mode: TimingMode) -> (b: bool)
        ensures
            b == usable(*self, mode),
    {
        let wide_enough = match mode {
            TimingMode::Hs400 => match self.width {
                BusWidth::Eight => true,
                _ => false,
            },
            TimingMode::Hs200 | TimingMode::Sdr104 => match self.width {
                BusWidth::One => false,
                _ => true,
            },
            _ => true,
        };
        self.card.modes.supports(mode) && self.caps.modes.supports(mode) && wide_enough
    }

    /// The fastest usable timing mode at or below a place on the ladder.
    pub fn fastest_below(&self, limit: u8) -> (m: TimingMode)
        requires
            limit <= 5,
        ensures
            m == best_below(*self, limit as int),
    {
        let mut r: u8 = limit;
        while r > 0
            invariant
                r <= limit,
                best_below(*self, r as int) == best_below(*self, limit as int),
            decreases r,
        {
            let candidate = place(r);
            if self.can_use(candidate) {
                return candidate;
            }
            r -= 1;
        }
        TimingMode::Legacy
    }

    /// What the session asks to be done next.
    pub fn request(&self) -> (r: Request)
        ensures
            r == request_of(*self),
    {
        match self.phase {
            Phase::PowerUp => Request::PowerUp,
            Phase::GoIdle => Request::Command(Command::new(0, 0, ResponseType::NoResponse)),
            Phase::IfCond => Request::Command(Command::new(8, IF_COND_PATTERN, ResponseType::R7)),
            Phase::SdOpCond => Request::Command(
                Command::app(
                    41,
                    OCR_HOST_WINDOW | (if self.v2 { OCR_HIGH_CAPACITY } else { 0 }) | (if self.v2
                        && self.caps.low_voltage {
                        OCR_LOW_VOLTAGE
                    } else {
                        0
                    }),
                    ResponseType::R3,
                ),
            ),
            Phase::MmcOpCond => Request::Command(
                Command::new(1, OCR_HOST_WINDOW | OCR_HIGH_CAPACITY, ResponseType::R3),
            ),
            Phase::SwitchCommand => Request::Command(Command::new(11, 0, ResponseType::R1)),
            Phase::SwitchVoltage => Request::Voltage(Voltage::V180),
            Phase::AllSendCid => Request::Command(Command::new(2, 0, ResponseType::R2)),
            Phase::RelativeAddr => match self.family {
                Family::Mmc => Request::Command(
                    Command::new(3, (MMC_RCA as u32) << 16, ResponseType::R1),
                ),
                _ => Request::Command(Command::new(3, 0, ResponseType::R6)),
            },
            Phase::SendCsd => Request::Command(
                Command::new(9, (self.card.rca as u32) << 16, ResponseType::R2),
            ),
            Phase::Select => Request::Command(
                Command::new(7, (self.card.rca as u32) << 16, ResponseType::R1b),
            ),
            Phase::ExtCsd => Request::ReadExtCsd,
            Phase::Width(w) => Request::Width(w),
            Phase::Mode(m) => Request::Mode(m),
            Phase::Ready | Phase::Failed => Request::Nothing,
        }
    }

    /// Takes in how the request of this phase went and moves on.
    pub fn advance(&mut self, o: &Outcome)
        requires
            old(self).wf(),
        ensures
            *final(self) == stepped(*old(self), *o),
            final(self).wf(),
            !(old(self).phase is Ready) && !(old(self).phase is Failed) ==> remaining(*final(self))
                < remaining(*old(self)),
            0 <= remaining(*final(self)),
    {
        proof {
            reveal(stepped);
            lemma_advance(*self, *o);
        }
        let s = *self;
        let next = match s.phase {
            Phase::Ready | Phase::Failed => s,
            Phase::PowerUp => match o {
                Outcome::Done => Session { phase: Phase::GoIdle, ..s },
                _ => do_fault(s, error_of(o)),
            },
            Phase::GoIdle => match o {
                Outcome::Done | Outcome::Response(_) => Session {
                    state: SessionState::Idle,
                    phase: Phase::IfCond,
                    ..s
                },
                _ => do_fault(s, error_of(o)),
            },
            Phase::IfCond => do_if_cond(s, o),
            Phase::SdOpCond => do_sd_op_cond(s, o),
            Phase::MmcOpCond => do_mmc_op_cond(s, o),
            Phase::SwitchVoltage => match o {
                Outcome::Done => Session { voltage: Voltage::V180, phase: Phase::AllSendCid, ..s },
                _ => do_fault(s, error_of(o)),
            },
            Phase::ExtCsd => match o {
                Outcome::ExtCsd(x) => do_ext_csd(s, *x),
                _ => do_fault(s, error_of(o)),
            },
            Phase::Width(w) => do_width(s, w, o),
            Phase::Mode(m) => do_mode(s, m, o),
            _ => do_identification(s, o),
        };
        *self = next;
    }
}

fn error_of(o: &Outcome) -> (e: SdError)
    ensures
        e == failure(*o),
{
    match o {
        Outcome::Failed(e) => *e,
        _ => SdError::InvalidResponse,
    }
}

fn do_fault(s: Session, e: SdError) -> (r: Session)
    ensures
        r == fault(s, e),
{
    Session { state: SessionState::Faulted(e), phase: Phase::Failed, ..s }
}

fn do_enter_mode(s: Session) -> (r: Session)
    ensures
        r == enter_mode(s),
{
    Session { phase: Phase::Mode(s.fastest_below(5)), ..s }
}

fn do_enter_width(s: Session) -> (r: Session)
    ensures
        r == enter_width(s),
{
    let eight = match s.card.widest {
        BusWidth::Eight => s.caps.eight_bit,
        _ => false,
    };
    let one = match s.card.widest {
        BusWidth::One => true,
        _ => false,
    };
    if eight {
        Session { phase: Phase::Width(BusWidth::Eight), ..s }
    } else if !one {
        Session { phase: Phase::Width(BusWidth::Four), ..s }
    } else {
        do_enter_mode(Session { width: BusWidth::One, ..s })
    }
}

fn do_if_cond(s: Session, o: &Outcome) -> (r: Session)
    ensures
        r == after_if_cond(s, *o),
{
    match o {
        Outcome::Response(r) => match r.echo() {
            Ok(echo) => {
                if echo == IF_COND_PATTERN {
                    Session {
                        v2: true,
                        family: Family::Sd,
                        state: SessionState::ReadyCheck,
                        phase: Phase::SdOpCond,
                        attempts: 0,
                        ..s
                    }
                } else {
                    do_fault(s, SdError::UnsupportedCard)
                }
            },
            Err(e) => do_fault(s, e),
        },
        Outcome::Failed(SdError::Timeout) => Session {
            v2: false,
            state: SessionState::ReadyCheck,
            phase: Phase::SdOpCond,
            attempts: 0,
            ..s
        },
        Outcome::Failed(e) => do_fault(s, *e),
        _ => do_fault(s, SdError::InvalidResponse),
    }
}

fn do_sd_ready(s: Session, ocr: u32) -> (r: Session)
    ensures
        r == sd_ready(s, ocr),
{
    let card = Card {
        card_type: if ocr & OCR_HIGH_CAPACITY != 0 { CardType::Sdhc } else { CardType::Sd },
        supports_1v8: s.caps.low_voltage && ocr & OCR_LOW_VOLTAGE != 0,
        widest: BusWidth::Four,
        ..s.card
    };
    Session {
        family: Family::Sd,
        state: SessionState::Identification,
        phase: if card.supports_1v8 { Phase::SwitchCommand } else { Phase::AllSendCid },
        card,
        ..s
    }
}

fn is_timeout(e: &SdError) -> (b: bool)
    ensures
        b == (*e == SdError::Timeout),
{
    match e {
        SdError::Timeout => true,
        _ => false,
    }
}

fn is_command_error(e: &SdError) -> (b: bool)
    ensures
        b == (*e == SdError::CommandError),
{
    match e {
        SdError::CommandError => true,
        _ => false,
    }
}

fn do_sd_op_cond(s: Session, o: &Outcome) -> (r: Session)
    requires
        s.attempts <= OCR_ATTEMPTS,
    ensures
        r == after_sd_op_cond(s, *o),
{
    match o {
        Outcome::Response(r) => match r.ocr() {
            Ok(ocr) => match judge_power_up(ocr, s.attempts + 1) {
                PowerUp::Ready => do_sd_ready(s, ocr),
                PowerUp::Retry => Session { attempts: s.attempts + 1, ..s },
                PowerUp::Fail(e) => do_fault(s, e),
            },
            Err(e) => do_fault(s, e),
        },
        Outcome::Failed(e) => {
            if !s.v2 && s.attempts == 0 && (is_timeout(e) || is_command_error(e)) {
                Session { family: Family::Mmc, phase: Phase::MmcOpCond, attempts: 0, ..s }
            } else if is_timeout(e) {
                do_fault(s, SdError::NoCard)
            } else {
                do_fault(s, *e)
            }
        },
        _ => do_fault(s, SdError::InvalidResponse),
    }
}

fn do_mmc_op_cond(s: Session, o: &Outcome) -> (r: Session)
    requires
        s.attempts <= OCR_ATTEMPTS,
    ensures
        r == after_mmc_op_cond(s, *o),
{
    match o {
        Outcome::Response(r) => match r.ocr() {
            Ok(ocr) => match judge_power_up(ocr, s.attempts + 1) {
                PowerUp::Ready => Session {
                    family: Family::Mmc,
                    state: SessionState::Identification,
                    phase: Phase::AllSendCid,
                    card: Card {
                        card_type: if ocr & OCR_HIGH_CAPACITY != 0 {
                            CardType::Emmc
                        } else {
                            CardType::Mmc
                        },
                        widest: BusWidth::Eight,
                        ..s.card
                    },
                    ..s
                },
                PowerUp::Retry => Session { attempts: s.attempts + 1, ..s },
                PowerUp::Fail(e) => do_fault(s, e),
            },
            Err(e) => do_fault(s, e),
        },
        Outcome::Failed(e) => {
            if is_timeout(e) {
                do_fault(s, SdError::NoCard)
            } else {
                do_fault(s, *e)
            }
        },
        _ => do_fault(s, SdError::InvalidResponse),
    }
}

fn do_csd(s: Session, raw: u128) -> (r: Session)
    ensures
        r == with_csd(s, raw),
{
    let csd = parse_csd(raw, s.family);
    let sd = match s.family {
        Family::Sd => true,
        _ => false,
    };
    let low = match s.voltage {
        Voltage::V180 => true,
        _ => false,
    };
    let high = match s.card.card_type {
        CardType::Sdhc => true,
        _ => false,
    };
    let fast = sd && csd.switch_class;
    let card = Card {
        capacity_blocks: csd.capacity_blocks,
        card_type: if high && csd.capacity_blocks > SDXC_BLOCKS {
            CardType::Sdxc
        } else {
            s.card.card_type
        },
        modes: Modes {
            high_speed: fast,
            sdr50: fast && low,
            sdr104: fast && low,
            hs200: false,
            hs400: false,
        },
        ..s.card
    };
    Session { state: SessionState::StandBy, phase: Phase::Select, card, ..s }
}

fn do_selected(s: Session) -> (r: Session)
    ensures
        r == selected(s),
{
    let t = Session {
        state: SessionState::Transfer,
        card: Card { selected: true, ..s.card },
        ..s
    };
    match s.family {
        Family::Mmc => Session { phase: Phase::ExtCsd, ..t },
        _ => do_enter_width(t),
    }
}

fn do_identification(s: Session, o: &Outcome) -> (r: Session)
    ensures
        r == after_identification(s, *o),
{
    match o {
        Outcome::Response(r) => match s.phase {
            Phase::SwitchCommand => Session { phase: Phase::SwitchVoltage, ..s },
            Phase::AllSendCid => match r.long() {
                Ok(raw) => Session {
                    phase: Phase::RelativeAddr,
                    card: Card { cid: raw, ..s.card },
                    ..s
                },
                Err(e) => do_fault(s, e),
            },
            Phase::RelativeAddr => match s.family {
                Family::Mmc => Session {
                    phase: Phase::SendCsd,
                    card: Card { rca: MMC_RCA, ..s.card },
                    ..s
                },
                _ => match r.rca() {
                    Ok(rca) => Session { phase: Phase::SendCsd, card: Card { rca, ..s.card }, ..s },
                    Err(e) => do_fault(s, e),
                },
            },
            Phase::SendCsd => match r.long() {
                Ok(raw) => do_csd(s, raw),
                Err(e) => do_fault(s, e),
            },
            _ => do_selected(s),
        },
        Outcome::Failed(e) => do_fault(s, *e),
        _ => do_fault(s, SdError::InvalidResponse),
    }
}

fn do_ext_csd(s: Session, x: ExtCsd) -> (r: Session)
    ensures
        r == with_ext_csd(s, x),
{
    let sectored = match s.card.card_type {
        CardType::Emmc => true,
        _ => false,
    };
    do_enter_width(
        Session {
            card: Card {
                capacity_blocks: if sectored { x.sectors as u64 } else { s.card.capacity_blocks },
                modes: modes_of_device(x.device_type),
                ..s.card
            },
            ..s
        },
    )
}

fn do_width(s: Session, w: BusWidth, o: &Outcome) -> (r: Session)
    ensures
        r == after_width(s, w, *o),
{
    match o {
        Outcome::Done => do_enter_mode(Session { width: w, ..s }),
        _ => match w {
            BusWidth::Eight => Session { phase: Phase::Width(BusWidth::Four), ..s },
            _ => do_enter_mode(Session { width: BusWidth::One, ..s }),
        },
    }
}

fn do_mode(s: Session, m: TimingMode, o: &Outcome) -> (r: Session)
    ensures
        r == after_mode(s, m, *o),
{
    match o {
        Outcome::Done => Session {
            timing: m,
            voltage: if crate::signal::mode_needs_low_voltage(m) { Voltage::V180 } else { s.voltage },
            phase: Phase::Ready,
            ..s
        },
        _ => match m {
            TimingMode::Legacy => do_fault(s, error_of(o)),
            _ => Session { phase: Phase::Mode(s.fastest_below(place_of(m) - 1)), ..s },
        },
    }
}

/// The timing mode at a place on the ladder.
pub fn place(r: u8) -> (m: TimingMode)
    ensures
        m == mode_at(r as int),
{
    if r == 0 {
        TimingMode::Legacy
    } else if r == 1 {
        TimingMode::HighSpeed
    } else if r == 2 {
        TimingMode::Sdr50
    } else if r == 3 {
        TimingMode::Sdr104
    } else if r == 4 {
        TimingMode::Hs200
    } else {
        TimingMode::Hs400
    }
}

/// The place of a timing mode on the ladder.
pub fn place_of(m: TimingMode) -> (r: u8)
    ensures
        r == rank(m),
{
    match m {
        TimingMode::Legacy => 0,
        TimingMode::HighSpeed => 1,
        TimingMode::Sdr50 => 2,
        TimingMode::Sdr104 => 3,
        TimingMode::Hs200 => 4,
        TimingMode::Hs400 => 5,
    }
}

proof fn lemma_enter_mode(s: Session)
    requires
        s.wf(),
        s.state is Transfer,
    ensures
        enter_mode(s).wf(),
        1 <= remaining(enter_mode(s)) <= 6,
        enter_mode(s).state == s.state,
{
    lemma_best_below(s, 5);
}

proof fn lemma_enter_width(s: Session)
    requires
        s.wf(),
        s.state is Transfer,
    ensures
        enter_width(s).wf(),
        1 <= remaining(enter_width(s)) <= 9,
        enter_width(s).state == s.state,
{
    lemma_enter_mode(Session { width: BusWidth::One, ..s });
}

proof fn lemma_advance_op_cond(s: Session, o: Outcome)
    requires
        s.wf(),
        s.phase is SdOpCond || s.phase is MmcOpCond,
    ensures
        stepped(s, o).wf(),
        0 <= remaining(stepped(s, o)) < remaining(s),
{
    reveal(stepped);
}

proof fn lemma_advance_identification(s: Session, o: Outcome)
    requires
        s.wf(),
        s.phase is SwitchCommand || s.phase is AllSendCid || s.phase is RelativeAddr
            || s.phase is SendCsd || s.phase is Select,
    ensures
        stepped(s, o).wf(),
        0 <= remaining(stepped(s, o)) < remaining(s),
{
    reveal(stepped);
    if s.phase is Select && o is Response && s.family != Family::Mmc {
        let t = Session {
            state: SessionState::Transfer,
            card: Card { selected: true, ..s.card },
            ..s
        };
        lemma_enter_width(t);
    }
}

proof fn lemma_advance_negotiation(s: Session, o: Outcome)
    requires
        s.wf(),
        s.phase is ExtCsd || s.phase is Width || s.phase is Mode,
    ensures
        stepped(s, o).wf(),
        0 <= remaining(stepped(s, o)) < remaining(s),
{
    reveal(stepped);
    match s.phase {
        Phase::Mode(m) => {
            if rank(m) > 0 {
                lemma_best_below(s, rank(m) - 1);
            }
        },
        Phase::Width(w) => {
            lemma_enter_mode(Session { width: w, ..s });
            lemma_enter_mode(Session { width: BusWidth::One, ..s });
        },
        _ => {
            if o is ExtCsd {
                let x = o->ExtCsd_0;
                let t = Session {
                    card: Card {
                        capacity_blocks: if s.card.card_type == CardType::Emmc {
                            x.sectors as u64
                        } else {
                            s.card.capacity_blocks
                        },
                        modes: device_modes(x.device_type),
                        ..s.card
                    },
                    ..s
                };
                lemma_enter_width(t);
            }
        },
    }
}

/// Every step of a session that has not ended brings it nearer to its end,
/// so a session ends after a bounded number of requests, whatever their
/// outcomes.
pub proof fn lemma_advance(s: Session, o: Outcome)
    requires
        s.wf(),
    ensures
        stepped(s, o).wf(),
        0 <= remaining(stepped(s, o)),
        !(s.phase is Ready) && !(s.phase is Failed) ==> remaining(stepped(s, o)) < remaining(s),
{
    reveal(stepped);
    match s.phase {
        Phase::SdOpCond | Phase::MmcOpCond => {
            lemma_advance_op_cond(s, o);
        },
        Phase::SwitchCommand | Phase::AllSendCid | Phase::RelativeAddr | Phase::SendCsd | Phase::Select => {
            lemma_advance_identification(s, o);
        },
        Phase::ExtCsd | Phase::Width(_) | Phase::Mode(_) => {
            lemma_advance_negotiation(s, o);
        },
        _ => {},
    }
}

/// A session never changes what the host can do.
pub proof fn lemma_caps_stay(s: Session, o: Outcome)
    ensures
        stepped(s, o).caps == s.caps,
{
    reveal(stepped);
}

/// The session after each of `outcomes` in turn, from `s`.
pub open spec fn settle(s: Session, outcomes: Seq<Outcome>) -> Session
    decreases outcomes.len(),
{
    if outcomes.len() == 0 {
        s
    } else {
        stepped(settle(s, outcomes.drop_last()), outcomes.last())
    }
}

/// Whatever the attempts at timing modes bring, the session never lands
/// above the mode it started to negotiate with: it is still negotiating at
/// or below that mode, or ready in a mode at or below it, or faulted.  And
/// it stays in the transfer state until it faults.
pub proof fn lemma_negotiation_lands_lower(s: Session, m: TimingMode, outcomes: Seq<Outcome>)
    requires
        s.wf(),
        s.phase == Phase::Mode(m),
    ensures
        settle(s, outcomes).wf(),
        match settle(s, outcomes).phase {
            Phase::Mode(n) => rank(n) <= rank(m) && settle(s, outcomes).state is Transfer,
            Phase::Ready => rank(settle(s, outcomes).timing) <= rank(m) && settle(
                s,
                outcomes,
            ).state is Transfer,
            Phase::Failed => settle(s, outcomes).state is Faulted,
            _ => false,
        },
    decreases outcomes.len(),
{
    if outcomes.len() > 0 {
        lemma_negotiation_lands_lower(s, m, outcomes.drop_last());
        let t = settle(s, outcomes.drop_last());
        lemma_advance(t, outcomes.last());
        match t.phase {
            Phase::Mode(n) => {
                lemma_negotiation_degrades(t, n, outcomes.last());
            },
            _ => {
                reveal(stepped);
            },
        }
    }
}

/// Negotiation only ever degrades.  When the setup of a timing mode fails,
/// the session goes on to a strictly slower mode that card and host share
/// and does not fault, unless the mode that failed was the legacy mode, the
/// slowest of all; when the setup succeeds, the session is ready in the
/// mode that was tried.
pub proof fn lemma_negotiation_degrades(s: Session, m: TimingMode, o: Outcome)
    requires
        s.wf(),
        s.phase == Phase::Mode(m),
    ensures
        o is Done ==> stepped(s, o).phase is Ready && stepped(s, o).timing == m,
        !(o is Done) && m != TimingMode::Legacy ==> {
            &&& stepped(s, o).phase matches Phase::Mode(n)
            &&& rank(n) < rank(m)
            &&& usable(s, n)
            &&& stepped(s, o).state == s.state
            &&& s.state is Transfer
        },
        !(o is Done) && m == TimingMode::Legacy ==> stepped(s, o).state == SessionState::Faulted(
            failure(o),
        ),
{
    reveal(stepped);
    if rank(m) > 0 {
        lemma_best_below(s, rank(m) - 1);
    }
}

/// A failure while the bus width is negotiated never faults the session.
pub proof fn lemma_width_never_faults(s: Session, w: BusWidth, o: Outcome)
    requires
        s.wf(),
        s.phase == Phase::Width(w),
    ensures
        !(stepped(s, o).phase is Failed),
        stepped(s, o).state == s.state,
        o is Done ==> stepped(s, o).width == w,
{
    reveal(stepped);
}

} // verus!
