//! Bringing a card up: the walk of the session from power-off to a
//! selected card with a negotiated bus, each request of the session done on
//! the bus and its outcome handed back.

use crate::card::{ext_csd_of, parse_ext_csd, OCR_INTERVAL_US};
use crate::command::{Command, Response, ResponseType};
use crate::emmc::{
    commanded, reclocked, voltage_switched, width_asked, EMmcHost, IDENTIFICATION_HZ,
};
use crate::err::SdError;
use crate::mode::{kept, mode_set};
use crate::regs::{Access, Bus, Kernel, Traced};
use crate::script::{done, run_plain};
use crate::session::{
    fresh, remaining, request_of, stepped, Outcome, Request, Session, SessionState,
};
use crate::signal::{build_power_script, power_script};
use crate::transfer::{bytes_view, pio_read, read_by_pio, WORDS_PER_BLOCK};
use vstd::prelude::*;

verus! {

/// How something without a value went, as the session is told.
pub open spec fn unit_outcome(r: Result<(), SdError>) -> Outcome {
    match r {
        Ok(_) => Outcome::Done,
        Err(e) => Outcome::Failed(e),
    }
}

/// How a command went, as the session is told.
pub open spec fn command_outcome(r: Result<Response, SdError>) -> Outcome {
    match r {
        Ok(response) => Outcome::Response(response),
        Err(e) => Outcome::Failed(e),
    }
}

/// How the read of the extended register went, as the session is told.
pub open spec fn ext_outcome(bytes: Result<Seq<u8>, SdError>) -> Outcome {
    match bytes {
        Ok(b) => match ext_csd_of(b) {
            Ok(x) => Outcome::ExtCsd(x),
            Err(e) => Outcome::Failed(e),
        },
        Err(e) => Outcome::Failed(e),
    }
}

/// The command that reads the extended card specific data.
pub open spec fn ext_csd_command() -> Command {
    Command { opcode: 8, argument: 0, response: ResponseType::R1, data: true, app: false }
}

/// The second half of a power-up: the clock is set for identification.
pub open spec fn slowed(
    h: EMmcHost,
    after: EMmcHost,
    t0: Seq<Access>,
    t1: Seq<Access>,
    o: Outcome,
) -> bool {
    exists|r: Result<(), SdError>| #[trigger]
        reclocked(h, IDENTIFICATION_HZ, after, t0, t1, r) && o == unit_outcome(r)
}

/// What a power-up makes of a host, and how it goes: the controller is
/// reset and the bus powered, and then the clock is set for
/// identification.
pub open spec fn powered(
    h: EMmcHost,
    after: EMmcHost,
    t0: Seq<Access>,
    t1: Seq<Access>,
    o: Outcome,
) -> bool {
    exists|p: Result<(), SdError>, mid: Seq<Access>| #[trigger]
        done(power_script(), t0, mid, p) && match p {
            Err(e) => o == Outcome::Failed(e) && after == h && t1 == mid,
            Ok(_) => slowed(h, after, mid, t1, o),
        }
}

/// How a command of the session goes.
pub open spec fn command_performed(
    h: EMmcHost,
    cmd: Command,
    t0: Seq<Access>,
    t1: Seq<Access>,
    o: Outcome,
) -> bool {
    exists|r: Result<Response, SdError>| #[trigger]
        commanded(h, cmd, t0, t1, r) && o == command_outcome(r)
}

/// How a switch of the signaling voltage goes.
pub open spec fn voltage_performed(
    h: EMmcHost,
    target: crate::signal::Voltage,
    t0: Seq<Access>,
    t1: Seq<Access>,
    o: Outcome,
) -> bool {
    exists|r: Result<(), SdError>| #[trigger]
        voltage_switched(h, target, t0, t1, r) && o == unit_outcome(r)
}

/// How the read of the extended register goes.
pub open spec fn ext_csd_performed(t0: Seq<Access>, t1: Seq<Access>, o: Outcome) -> bool {
    exists|bytes: Result<Seq<u8>, SdError>| #[trigger]
        read_by_pio(ext_csd_command(), 1, WORDS_PER_BLOCK, t0, t1, bytes) && o == ext_outcome(
            bytes,
        )
}

/// How the setup of a bus width goes.
pub open spec fn width_performed(
    h: EMmcHost,
    width: crate::signal::BusWidth,
    t0: Seq<Access>,
    t1: Seq<Access>,
    o: Outcome,
) -> bool {
    exists|r: Result<(), SdError>| #[trigger]
        width_asked(h, width, t0, t1, r) && o == unit_outcome(r)
}

/// What the setup of a timing mode makes of a host, and how it goes.
pub open spec fn mode_performed(
    h: EMmcHost,
    mode: crate::signal::TimingMode,
    after: EMmcHost,
    t0: Seq<Access>,
    t1: Seq<Access>,
    o: Outcome,
) -> bool {
    exists|r: Result<(), SdError>| #[trigger]
        mode_set(h, mode, after, t0, t1, r) && o == unit_outcome(r)
}

/// What doing a request of the session makes of a host, and how it goes,
/// with the record of the bus before and after.
pub open spec fn performed(
    h: EMmcHost,
    request: Request,
    after: EMmcHost,
    t0: Seq<Access>,
    t1: Seq<Access>,
    o: Outcome,
) -> bool {
    match request {
        Request::PowerUp => powered(h, after, t0, t1, o),
        Request::Command(cmd) => after == h && command_performed(h, cmd, t0, t1, o),
        Request::Voltage(target) => after == h && voltage_performed(h, target, t0, t1, o),
        Request::ReadExtCsd => after == h && ext_csd_performed(t0, t1, o),
        Request::Width(width) => after == h && width_performed(h, width, t0, t1, o),
        Request::Mode(mode) => mode_performed(h, mode, after, t0, t1, o),
        Request::Nothing => after == h && t1 == t0 && o == Outcome::Done,
    }
}

/// The record of the bus after a step of the walk: a card that is still
/// busy powering up is given a pause before it is asked again.
pub open spec fn paused(before: Session, after: Session, seen: Seq<Access>) -> Seq<Access> {
    if after.attempts > before.attempts {
        seen.push(Access::Delay { us: OCR_INTERVAL_US })
    } else {
        seen
    }
}

/// One step of the walk: the request of the session is done, and the
/// session takes the outcome in.
pub open spec fn walked_once(
    h: EMmcHost,
    o: Outcome,
    after: EMmcHost,
    t0: Seq<Access>,
    t1: Seq<Access>,
) -> bool {
    exists|mid: EMmcHost, seen: Seq<Access>| #[trigger]
        performed(h, request_of(h.session), mid, t0, seen, o) && after == (EMmcHost {
            session: stepped(mid.session, o),
            ..mid
        }) && t1 == paused(h.session, after.session, seen)
}

/// The walk with these outcomes, step after step: what it makes of a host
/// and of the record of the bus.
pub open spec fn walked_on(
    h: EMmcHost,
    outcomes: Seq<Outcome>,
    after: EMmcHost,
    t0: Seq<Access>,
    t1: Seq<Access>,
) -> bool
    decreases outcomes.len(),
{
    if outcomes.len() == 0 {
        after == h && t1 == t0
    } else {
        exists|mid: EMmcHost, seen: Seq<Access>|
            walked_on(h, outcomes.drop_last(), mid, t0, seen) && #[trigger] walked_once(
                mid,
                outcomes.last(),
                after,
                seen,
                t1,
            )
    }
}

/// The host as a bring-up finds it: before power-up, the clock off, not
/// tuned.
pub open spec fn reset(h: EMmcHost) -> EMmcHost {
    EMmcHost { session: fresh(h.session.caps), clock_hz: 0, tuned: false, ..h }
}

/// What a bring-up makes of a host and of the record of the bus: the walk
/// from power-off with some outcomes, up to a session that asks for
/// nothing more.
pub open spec fn brought_up(h: EMmcHost, after: EMmcHost, t0: Seq<Access>, t1: Seq<Access>) -> bool {
    exists|outcomes: Seq<Outcome>| #[trigger]
        walked_on(reset(h), outcomes, after, t0, t1) && (after.session.phase is Ready
            || after.session.phase is Failed)
}

impl EMmcHost {
    /// Does what the session asks for and says how it went.
    pub fn perform<B: Bus, K: Kernel>(&mut self, bus: &mut Traced<B>, request: &Request) -> (o:
        Outcome)
        requires
            old(self).wf(),
        ensures
            final(self).wf(),
            kept(*old(self), *final(self)),
            performed(*old(self), *request, *final(self), old(bus).seen(), final(bus).seen(), o),
    {
        match request {
            Request::PowerUp => {
                let p = run_plain::<B, K>(bus, build_power_script());
                let ghost mid = bus.seen();
                assert(done(power_script(), old(bus).seen(), mid, p));
                match p {
                    Ok(_) => {},
                    Err(e) => {
                        return Outcome::Failed(e);
                    },
                }
                let r = self.set_clock::<B, K>(bus, IDENTIFICATION_HZ);
                assert(reclocked(*old(self), IDENTIFICATION_HZ, *self, mid, bus.seen(), r));
                let o = match r {
                    Ok(_) => Outcome::Done,
                    Err(e) => Outcome::Failed(e),
                };
                assert(slowed(*old(self), *self, mid, bus.seen(), o));
                o
            },
            Request::Command(cmd) => {
                let r = self.execute::<B, K>(bus, cmd);
                assert(commanded(*self, *cmd, old(bus).seen(), bus.seen(), r));
                match r {
                    Ok(r) => Outcome::Response(r),
                    Err(e) => Outcome::Failed(e),
                }
            },
            Request::Voltage(target) => {
                let r = self.apply_voltage::<B, K>(bus, *target);
                assert(voltage_switched(*self, *target, old(bus).seen(), bus.seen(), r));
                match r {
                    Ok(_) => Outcome::Done,
                    Err(e) => Outcome::Failed(e),
                }
            },
            Request::ReadExtCsd => {
                let cmd = Command::with_data(8, 0, ResponseType::R1);
                let bytes = pio_read::<B, K>(bus, &cmd, 1, WORDS_PER_BLOCK);
                assert(read_by_pio(
                    ext_csd_command(),
                    1,
                    WORDS_PER_BLOCK,
                    old(bus).seen(),
                    bus.seen(),
                    bytes_view(bytes),
                ));
                match bytes {
                    Ok(bytes) => match parse_ext_csd(&bytes) {
                        Ok(x) => Outcome::ExtCsd(x),
                        Err(e) => Outcome::Failed(e),
                    },
                    Err(e) => Outcome::Failed(e),
                }
            },
            Request::Width(w) => {
                let r = self.apply_width::<B, K>(bus, *w);
                assert(width_asked(*self, *w, old(bus).seen(), bus.seen(), r));
                match r {
                    Ok(_) => Outcome::Done,
                    Err(e) => Outcome::Failed(e),
                }
            },
            Request::Mode(m) => {
                let r = self.apply_mode::<B, K>(bus, *m);
                assert(mode_set(*old(self), *m, *self, old(bus).seen(), bus.seen(), r));
                match r {
                    Ok(_) => Outcome::Done,
                    Err(e) => Outcome::Failed(e),
                }
            },
            Request::Nothing => Outcome::Done,
        }
    }

    /// Does the next thing the session asks for and tells the session how
    /// it went; `false` once nothing is left to do.
    fn walk<B: Bus, K: Kernel>(&mut self, bus: &mut Traced<B>) -> (r: (bool, Ghost<Outcome>))
        requires
            old(self).wf(),
        ensures
            final(self).wf(),
            final(self).base == old(self).base,
            final(self).base_clock_hz == old(self).base_clock_hz,
            final(self).dma == old(self).dma,
            final(self).session.caps == old(self).session.caps,
            r.0 ==> 0 <= remaining(final(self).session) < remaining(old(self).session),
            r.0 ==> walked_once(*old(self), r.1@, *final(self), old(bus).seen(), final(bus).seen()),
            !r.0 ==> *final(self) == *old(self) && *final(bus) == *old(bus) && (old(
                self,
            ).session.phase is Ready || old(self).session.phase is Failed),
    {
        let request = self.session.request();
        match request {
            Request::Nothing => {
                return (false, Ghost(Outcome::Done));
            },
            _ => {},
        }
        let outcome = self.perform::<B, K>(bus, &request);
        let ghost mid = *self;
        let ghost seen = bus.seen();
        let before = self.session.attempts;
        self.session.advance(&outcome);
        proof {
            crate::session::lemma_caps_stay(old(self).session, outcome);
        }
        if self.session.attempts > before {
            bus.sleep::<K>(OCR_INTERVAL_US);
        }
        proof {
            assert(performed(*old(self), request_of(old(self).session), mid, old(bus).seen(), seen, outcome));
            assert(*self == (EMmcHost { session: stepped(mid.session, outcome), ..mid }));
            assert(bus.seen() == paused(old(self).session, self.session, seen));
        }
        (true, Ghost(outcome))
    }

    /// Brings the card up: walks the session from power-off to a selected
    /// card with a negotiated bus.  Nothing of an earlier session carries
    /// over.  The walk ends after a bounded number of requests, each of
    /// which ends after a bounded number of bus operations.  It returns
    /// `Ok` with the session ready for block transfers, or the first fatal
    /// error, which the session then holds as its fault.  Either way host
    /// and bus are what the walk makes of them: each request of the session
    /// is done on the bus, and the session takes its outcome in.
    pub fn init<B: Bus, K: Kernel>(&mut self, bus: &mut Traced<B>) -> (r: Result<(), SdError>)
        requires
            old(self).wf(),
        ensures
            final(self).wf(),
            final(self).base == old(self).base,
            final(self).base_clock_hz == old(self).base_clock_hz,
            final(self).dma == old(self).dma,
            final(self).session.caps == old(self).session.caps,
            brought_up(*old(self), *final(self), old(bus).seen(), final(bus).seen()),
            r is Ok ==> final(self).session.phase is Ready && final(self).session.state
                == SessionState::Transfer,
            r matches Err(e) ==> final(self).session.state == SessionState::Faulted(e)
                && final(self).session.phase is Failed,
    {
        self.session = Session::new(self.session.caps);
        self.clock_hz = 0;
        self.tuned = false;
        let ghost start = *self;
        let ghost mut outcomes: Seq<Outcome> = Seq::empty();
        loop
            invariant
                self.wf(),
                start == reset(*old(self)),
                self.base == old(self).base,
                self.base_clock_hz == old(self).base_clock_hz,
                self.dma == old(self).dma,
                self.session.caps == old(self).session.caps,
                walked_on(start, outcomes, *self, old(bus).seen(), bus.seen()),
            ensures
                self.session.phase is Ready || self.session.phase is Failed,
                walked_on(start, outcomes, *self, old(bus).seen(), bus.seen()),
            decreases remaining(self.session),
        {
            let ghost mid = *self;
            let ghost seen = bus.seen();
            let step = self.walk::<B, K>(bus);
            if !step.0 {
                break ;
            }
            proof {
                let before = outcomes;
                outcomes = outcomes.push(step.1@);
                assert(outcomes.drop_last() =~= before);
                assert(walked_once(mid, outcomes.last(), *self, seen, bus.seen()));
            }
        }
        match self.session.state {
            SessionState::Faulted(e) => Err(e),
            _ => Ok(()),
        }
    }
}

/// The session of a walk is what the state machine makes of the outcomes,
/// and the walk leaves the base clock, the choice of transfers and what the
/// host can do alone.
pub proof fn lemma_walked_on(
    h: EMmcHost,
    outcomes: Seq<Outcome>,
    after: EMmcHost,
    t0: Seq<Access>,
    t1: Seq<Access>,
)
    requires
        walked_on(h, outcomes, after, t0, t1),
    ensures
        after.session == crate::session::settle(h.session, outcomes),
        after.base == h.base,
        after.base_clock_hz == h.base_clock_hz,
        after.dma == h.dma,
    decreases outcomes.len(),
{
    if outcomes.len() > 0 {
        let (mid, seen) = choose|mid: EMmcHost, seen: Seq<Access>|
            walked_on(h, outcomes.drop_last(), mid, t0, seen) && #[trigger] walked_once(
                mid,
                outcomes.last(),
                after,
                seen,
                t1,
            );
        lemma_walked_on(h, outcomes.drop_last(), mid, t0, seen);
        lemma_walked_once(mid, outcomes.last(), after, seen, t1);
    }
}

proof fn lemma_walked_once(
    h: EMmcHost,
    o: Outcome,
    after: EMmcHost,
    t0: Seq<Access>,
    t1: Seq<Access>,
)
    requires
        walked_once(h, o, after, t0, t1),
    ensures
        after.session == stepped(h.session, o),
        after.base == h.base,
        after.base_clock_hz == h.base_clock_hz,
        after.dma == h.dma,
{
    let (mid, seen) = choose|mid: EMmcHost, seen: Seq<Access>| #[trigger]
        performed(h, request_of(h.session), mid, t0, seen, o) && after == (EMmcHost {
            session: stepped(mid.session, o),
            ..mid
        }) && t1 == paused(h.session, after.session, seen);
    lemma_performed(h, request_of(h.session), mid, t0, seen, o);
}

proof fn lemma_performed(
    h: EMmcHost,
    request: Request,
    after: EMmcHost,
    t0: Seq<Access>,
    t1: Seq<Access>,
    o: Outcome,
)
    requires
        performed(h, request, after, t0, t1, o),
    ensures
        kept(h, after),
{
    match request {
        Request::Mode(mode) => {
            let r = choose|r: Result<(), SdError>| #[trigger]
                mode_set(h, mode, after, t0, t1, r) && o == unit_outcome(r);
            if h.session.card.selected && h.clock_hz != 0 {
                crate::mode::lemma_mode_applied(h, mode, after, t0, t1, r);
            }
        },
        _ => {},
    }
}

} // verus!
