//! The command and response engine: what a command is, the script that
//! issues it and waits for its completion, and the response read back.

use crate::classify::{card_fault, classify_card_status, CARD_APP_CMD};
use crate::err::SdError;
use crate::regs::{
    Reg, CMD_CHECK_CRC, CMD_CHECK_INDEX, CMD_DATA, CMD_RESP_LONG, CMD_RESP_NONE, CMD_RESP_SHORT,
    CMD_RESP_SHORT_BUSY, INT_ALL, INT_CMD_COMPLETE, INT_FAULTS, STATE_CMD_INHIBIT,
    STATE_DAT0_LEVEL, STATE_DAT_INHIBIT,
};
use crate::regs::{Access, Bus, Kernel, Traced};
use crate::script::{
    lemma_gate_refuses, lemma_starved_poll, lemma_steps_wf_join, next, played, result_view, run,
    start, starving, steps_wf, yields, Stage, Step,
};
use crate::regs::BusOp;
use vstd::prelude::*;

verus! {

/// Reads of the interrupt status that a command may take to complete.
pub const COMMAND_POLLS: u32 = 10_000;
/// Microseconds between two such reads.
pub const COMMAND_INTERVAL_US: u64 = 10;
/// Reads of the present state that a busy card may take to release the data
/// line.
pub const BUSY_POLLS: u32 = 50_000;
/// Microseconds between two such reads.
pub const BUSY_INTERVAL_US: u64 = 10;

/// The response a command expects.
#[derive(Clone, Copy, Debug, PartialEq, Eq, Structural)]
pub enum ResponseType {
    /// No response.
    NoResponse,
    /// Card status.
    R1,
    /// Card status, with the card busy on the data line afterwards.
    R1b,
    /// 136 bits: the card identification or the card specific data.
    R2,
    /// Operating conditions.
    R3,
    /// Published relative card address.
    R6,
    /// Interface condition.
    R7,
}

/// One command, made per invocation and never changed.
#[derive(Clone, Copy, Debug, PartialEq, Eq)]
pub struct Command {
    /// Command index, six bits.
    pub opcode: u8,
    /// Argument.
    pub argument: u32,
    /// The response expected.
    pub response: ResponseType,
    /// The command starts a data transfer.
    pub data: bool,
    /// The command is application specific and must follow an `APP_CMD`.
    pub app: bool,
}

/// The index of `APP_CMD`.
pub const APP_CMD: u8 = 55;

impl Command {
    /// A plain command.
    pub fn new(opcode: u8, argument: u32, response: ResponseType) -> (c: Command)
        ensures
            c == (Command { opcode, argument, response, data: false, app: false }),
    {
        Command { opcode, argument, response, data: false, app: false }
    }

    /// An application-specific command.
    pub fn app(opcode: u8, argument: u32, response: ResponseType) -> (c: Command)
        ensures
            c == (Command { opcode, argument, response, data: false, app: true }),
    {
        Command { opcode, argument, response, data: false, app: true }
    }

    /// A command that starts a data transfer.
    pub fn with_data(opcode: u8, argument: u32, response: ResponseType) -> (c: Command)
        ensures
            c == (Command { opcode, argument, response, data: true, app: false }),
    {
        Command { opcode, argument, response, data: true, app: false }
    }

    /// The index fits in six bits.
    pub open spec fn valid(self) -> bool {
        self.opcode < 64
    }

    /// Whether the index fits in six bits.
    pub fn is_valid(&self) -> (b: bool)
        ensures
            b == self.valid(),
    {
        self.opcode < 64
    }
}

/// The `APP_CMD` that announces an application-specific command to the card
/// at `rca`.
pub open spec fn app_command(rca: u16) -> Command {
    Command {
        opcode: APP_CMD,
        argument: (rca as u32) << 16,
        response: ResponseType::R1,
        data: false,
        app: false,
    }
}

/// The controller's flags for a response type.
pub open spec fn response_flags(r: ResponseType) -> u32 {
    match r {
        ResponseType::NoResponse => CMD_RESP_NONE,
        ResponseType::R2 => CMD_RESP_LONG | CMD_CHECK_CRC,
        ResponseType::R3 => CMD_RESP_SHORT,
        ResponseType::R1b => CMD_RESP_SHORT_BUSY | CMD_CHECK_CRC | CMD_CHECK_INDEX,
        _ => CMD_RESP_SHORT | CMD_CHECK_CRC | CMD_CHECK_INDEX,
    }
}

/// The word written to the command register: the index, the response
/// flags, the data flag, and the transfer mode in the low half.
pub open spec fn command_word(cmd: Command, mode: u32) -> u32 {
    ((cmd.opcode as u32) << 24) | response_flags(cmd.response) | (if cmd.data {
        CMD_DATA
    } else {
        0
    }) | (mode & 0xFFFF)
}

/// Computes the word written to the command register.
pub fn encode_command(cmd: &Command, mode: u32) -> (w: u32)
    ensures
        w == command_word(*cmd, mode),
{
    let flags: u32 = match cmd.response {
        ResponseType::NoResponse => CMD_RESP_NONE,
        ResponseType::R2 => CMD_RESP_LONG | CMD_CHECK_CRC,
        ResponseType::R3 => CMD_RESP_SHORT,
        ResponseType::R1b => CMD_RESP_SHORT_BUSY | CMD_CHECK_CRC | CMD_CHECK_INDEX,
        _ => CMD_RESP_SHORT | CMD_CHECK_CRC | CMD_CHECK_INDEX,
    };
    ((cmd.opcode as u32) << 24) | flags | (if cmd.data {
        CMD_DATA
    } else {
        0
    }) | (mode & 0xFFFF)
}

/// The lines that must be idle before a command may be issued: the command
/// line, and the data line too where the command uses it.
pub open spec fn inhibit_mask(cmd: Command) -> u32 {
    if cmd.data || cmd.response == ResponseType::R1b {
        STATE_CMD_INHIBIT | STATE_DAT_INHIBIT
    } else {
        STATE_CMD_INHIBIT
    }
}

/// The single look at the present state that refuses a command while
/// another is in flight.
pub open spec fn idle_check(cmd: Command) -> Step {
    Step::Poll {
        reg: Reg::PresentState,
        mask: inhibit_mask(cmd),
        want: 0,
        fault: 0,
        budget: 1,
        interval_us: 0,
        on_timeout: SdError::InvalidArgument,
        recover: false,
    }
}

/// The bounded wait for the command to complete.
pub open spec fn completion_wait() -> Step {
    Step::Poll {
        reg: Reg::IntStatus,
        mask: INT_CMD_COMPLETE,
        want: INT_CMD_COMPLETE,
        fault: INT_FAULTS,
        budget: COMMAND_POLLS,
        interval_us: COMMAND_INTERVAL_US,
        on_timeout: SdError::Timeout,
        recover: true,
    }
}

/// The bounded wait for a busy card to release the data line.
pub open spec fn busy_wait() -> Step {
    Step::Poll {
        reg: Reg::PresentState,
        mask: STATE_DAT0_LEVEL,
        want: STATE_DAT0_LEVEL,
        fault: 0,
        budget: BUSY_POLLS,
        interval_us: BUSY_INTERVAL_US,
        on_timeout: SdError::DataTimeout,
        recover: true,
    }
}

/// The look at the response of `APP_CMD` that tells whether the card now
/// expects an application command.
pub open spec fn app_check() -> Step {
    Step::Poll {
        reg: Reg::Response0,
        mask: CARD_APP_CMD,
        want: CARD_APP_CMD,
        fault: 0,
        budget: 1,
        interval_us: 0,
        on_timeout: SdError::CommandError,
        recover: false,
    }
}

/// Issuing a command: the argument, then the command word, then the wait
/// for completion and the clearing of the completion flag.
pub open spec fn issue_steps(cmd: Command, mode: u32) -> Seq<Step> {
    seq![
        Step::Write { reg: Reg::Argument, value: cmd.argument },
        Step::Write { reg: Reg::Command, value: command_word(cmd, mode) },
        completion_wait(),
        Step::Write { reg: Reg::IntStatus, value: INT_CMD_COMPLETE },
    ]
}

/// The number of response words read for a response type.
pub open spec fn response_words(r: ResponseType) -> nat {
    match r {
        ResponseType::NoResponse => 0,
        ResponseType::R2 => 4,
        _ => 1,
    }
}

/// Reading the response registers that the response type fills.
pub open spec fn response_steps(r: ResponseType) -> Seq<Step> {
    match r {
        ResponseType::NoResponse => Seq::empty(),
        ResponseType::R2 => seq![
            Step::Read { reg: Reg::Response0, count: 1 },
            Step::Read { reg: Reg::Response1, count: 1 },
            Step::Read { reg: Reg::Response2, count: 1 },
            Step::Read { reg: Reg::Response3, count: 1 },
        ],
        _ => seq![Step::Read { reg: Reg::Response0, count: 1 }],
    }
}

/// The wait on the data line that a busy response adds.
pub open spec fn busy_steps(r: ResponseType) -> Seq<Step> {
    if r == ResponseType::R1b {
        seq![busy_wait()]
    } else {
        Seq::empty()
    }
}

/// What precedes an application-specific command: `APP_CMD` to the card at
/// `rca`, its response, and the check that the card took it.
pub open spec fn app_prefix(rca: u16) -> Seq<Step> {
    issue_steps(app_command(rca), 0) + seq![
        Step::Read { reg: Reg::Response0, count: 1 },
        app_check(),
    ]
}

/// The whole script of a command without data: refuse it while the lines
/// are busy, clear what is pending, announce an application command where
/// it is one, issue it, read the response, and wait out a busy card.
pub open spec fn command_script(cmd: Command, rca: u16) -> Seq<Step> {
    seq![idle_check(cmd), Step::Write { reg: Reg::IntStatus, value: INT_ALL }] + (if cmd.app {
        app_prefix(rca)
    } else {
        Seq::empty()
    }) + issue_steps(cmd, 0) + response_steps(cmd.response) + busy_steps(cmd.response)
}

/// The script of a command is well formed and needs no data.
pub proof fn lemma_command_script_wf(cmd: Command, rca: u16)
    ensures
        steps_wf(command_script(cmd, rca), 0),
        steps_wf(issue_steps(cmd, 0), 0),
{
    let head = seq![idle_check(cmd), Step::Write { reg: Reg::IntStatus, value: INT_ALL }];
    let prefix = if cmd.app { app_prefix(rca) } else { Seq::empty() };
    assert(steps_wf(issue_steps(app_command(rca), 0), 0));
    lemma_steps_wf_join(
        issue_steps(app_command(rca), 0),
        seq![Step::Read { reg: Reg::Response0, count: 1 }, app_check()],
        0,
    );
    lemma_steps_wf_join(head, prefix, 0);
    lemma_steps_wf_join(head + prefix, issue_steps(cmd, 0), 0);
    lemma_steps_wf_join(head + prefix + issue_steps(cmd, 0), response_steps(cmd.response), 0);
    lemma_steps_wf_join(
        head + prefix + issue_steps(cmd, 0) + response_steps(cmd.response),
        busy_steps(cmd.response),
        0,
    );
}

/// Appends the steps that issue `cmd`.
pub fn push_issue(script: &mut Vec<Step>, cmd: &Command, mode: u32)
    ensures
        final(script)@ == old(script)@ + issue_steps(*cmd, mode),
{
    script.push(Step::Write { reg: Reg::Argument, value: cmd.argument });
    script.push(Step::Write { reg: Reg::Command, value: encode_command(cmd, mode) });
    script.push(
        Step::Poll {
            reg: Reg::IntStatus,
            mask: INT_CMD_COMPLETE,
            want: INT_CMD_COMPLETE,
            fault: INT_FAULTS,
            budget: COMMAND_POLLS,
            interval_us: COMMAND_INTERVAL_US,
            on_timeout: SdError::Timeout,
            recover: true,
        },
    );
    script.push(Step::Write { reg: Reg::IntStatus, value: INT_CMD_COMPLETE });
    assert(script@ =~= old(script)@ + issue_steps(*cmd, mode));
}

/// Appends the check that refuses `cmd` while the lines are busy, and the
/// clearing of the interrupt status.
pub fn push_prologue(script: &mut Vec<Step>, cmd: &Command)
    ensures
        final(script)@ == old(script)@ + seq![
            idle_check(*cmd),
            Step::Write { reg: Reg::IntStatus, value: INT_ALL },
        ],
{
    let busy = match cmd.response {
        ResponseType::R1b => true,
        _ => false,
    };
    let mask: u32 = if cmd.data || busy {
        STATE_CMD_INHIBIT | STATE_DAT_INHIBIT
    } else {
        STATE_CMD_INHIBIT
    };
    script.push(
        Step::Poll {
            reg: Reg::PresentState,
            mask,
            want: 0,
            fault: 0,
            budget: 1,
            interval_us: 0,
            on_timeout: SdError::InvalidArgument,
            recover: false,
        },
    );
    script.push(Step::Write { reg: Reg::IntStatus, value: INT_ALL });
    assert(script@ =~= old(script)@ + seq![
        idle_check(*cmd),
        Step::Write { reg: Reg::IntStatus, value: INT_ALL },
    ]);
}

/// Appends the reads of the response registers and the wait on a busy
/// card.
pub fn push_epilogue(script: &mut Vec<Step>, response: ResponseType)
    ensures
        final(script)@ == old(script)@ + response_steps(response) + busy_steps(response),
{
    match response {
        ResponseType::NoResponse => {},
        ResponseType::R2 => {
            script.push(Step::Read { reg: Reg::Response0, count: 1 });
            script.push(Step::Read { reg: Reg::Response1, count: 1 });
            script.push(Step::Read { reg: Reg::Response2, count: 1 });
            script.push(Step::Read { reg: Reg::Response3, count: 1 });
        },
        _ => {
            script.push(Step::Read { reg: Reg::Response0, count: 1 });
        },
    }
    match response {
        ResponseType::R1b => {
            script.push(
                Step::Poll {
                    reg: Reg::PresentState,
                    mask: STATE_DAT0_LEVEL,
                    want: STATE_DAT0_LEVEL,
                    fault: 0,
                    budget: BUSY_POLLS,
                    interval_us: BUSY_INTERVAL_US,
                    on_timeout: SdError::DataTimeout,
                    recover: true,
                },
            );
        },
        _ => {},
    }
    assert(script@ =~= old(script)@ + response_steps(response) + busy_steps(response));
}

/// Builds the script of a command without data.
pub fn build_command_script(cmd: &Command, rca: u16) -> (script: Vec<Step>)
    ensures
        script@ == command_script(*cmd, rca),
{
    let mut script: Vec<Step> = Vec::new();
    push_prologue(&mut script, cmd);
    if cmd.app {
        let announce = Command {
            opcode: APP_CMD,
            argument: (rca as u32) << 16,
            response: ResponseType::R1,
            data: false,
            app: false,
        };
        push_issue(&mut script, &announce, 0);
        script.push(Step::Read { reg: Reg::Response0, count: 1 });
        script.push(
            Step::Poll {
                reg: Reg::Response0,
                mask: CARD_APP_CMD,
                want: CARD_APP_CMD,
                fault: 0,
                budget: 1,
                interval_us: 0,
                on_timeout: SdError::CommandError,
                recover: false,
            },
        );
    }
    push_issue(&mut script, cmd, 0);
    push_epilogue(&mut script, cmd.response);
    assert(script@ =~= command_script(*cmd, rca));
    script
}

/// A response: the raw bits as received, tagged by the response type.  The
/// fields a response type carries are read out of the raw bits on demand.
#[derive(Clone, Copy, Debug, PartialEq, Eq)]
pub struct Response {
    /// The response type.
    pub kind: ResponseType,
    /// The raw bits.  A 136-bit response is held by its bits 127..0, in the
    /// card's own numbering.
    pub raw: u128,
}

/// The raw bits of a long response from the four response registers, which
/// hold it without its lowest eight bits.
pub open spec fn long_raw(w0: u32, w1: u32, w2: u32, w3: u32) -> u128 {
    ((w0 as u128) | ((w1 as u128) << 32) | ((w2 as u128) << 64) | ((w3 as u128) << 96)) << 8
}

/// The response that the words read back make for a command: the words of
/// an announcing `APP_CMD` come first and are checked for a card fault, the
/// command's own follow, and a card status in them is checked too.
pub open spec fn response_of(cmd: Command, words: Seq<u32>) -> Result<Response, SdError> {
    let skip: int = if cmd.app { 1 } else { 0 };
    if words.len() != skip + response_words(cmd.response) {
        Err(SdError::InvalidResponse)
    } else if cmd.app && card_fault(words[0]) is Some {
        Err(card_fault(words[0])->0)
    } else {
        match cmd.response {
            ResponseType::NoResponse => Ok(Response { kind: ResponseType::NoResponse, raw: 0 }),
            ResponseType::R2 => Ok(
                Response {
                    kind: ResponseType::R2,
                    raw: long_raw(
                        words[skip],
                        words[skip + 1],
                        words[skip + 2],
                        words[skip + 3],
                    ),
                },
            ),
            ResponseType::R1 | ResponseType::R1b => if card_fault(words[skip]) is Some {
                Err(card_fault(words[skip])->0)
            } else {
                Ok(Response { kind: cmd.response, raw: words[skip] as u128 })
            },
            _ => Ok(Response { kind: cmd.response, raw: words[skip] as u128 }),
        }
    }
}

/// What a command returns for what its script yielded.
pub open spec fn command_result(cmd: Command, ran: Result<Seq<u32>, SdError>) -> Result<
    Response,
    SdError,
> {
    match ran {
        Ok(words) => response_of(cmd, words),
        Err(e) => Err(e),
    }
}

/// Makes the response of a command from the words read back.
pub fn decode_response(cmd: &Command, words: &Vec<u32>) -> (r: Result<Response, SdError>)
    ensures
        r == response_of(*cmd, words@),
{
    let skip: usize = if cmd.app { 1 } else { 0 };
    let expect: usize = match cmd.response {
        ResponseType::NoResponse => 0,
        ResponseType::R2 => 4,
        _ => 1,
    };
    if words.len() != skip + expect {
        return Err(SdError::InvalidResponse);
    }
    if cmd.app {
        match classify_card_status(words[0]) {
            Some(e) => {
                return Err(e);
            },
            None => {},
        }
    }
    match cmd.response {
        ResponseType::NoResponse => Ok(Response { kind: ResponseType::NoResponse, raw: 0 }),
        ResponseType::R2 => {
            let w0 = words[skip];
            let w1 = words[skip + 1];
            let w2 = words[skip + 2];
            let w3 = words[skip + 3];
            Ok(
                Response {
                    kind: ResponseType::R2,
                    raw: ((w0 as u128) | ((w1 as u128) << 32) | ((w2 as u128) << 64) | ((w3 as u128)
                        << 96)) << 8,
                },
            )
        },
        ResponseType::R1 | ResponseType::R1b => {
            match classify_card_status(words[skip]) {
                Some(e) => Err(e),
                None => Ok(Response { kind: cmd.response, raw: words[skip] as u128 }),
            }
        },
        _ => Ok(Response { kind: cmd.response, raw: words[skip] as u128 }),
    }
}

/// `r` is what the command returns for the answers that the bus gave to
/// its script, with the record of the bus before and after.
pub open spec fn executed(
    cmd: Command,
    rca: u16,
    before: Seq<Access>,
    after: Seq<Access>,
    r: Result<Response, SdError>,
) -> bool {
    exists|ran: Result<Seq<u32>, SdError>| #[trigger]
        played(command_script(cmd, rca), Seq::<u32>::empty(), before, after, ran) && r
            == command_result(cmd, ran)
}

/// Executes a command without data on the bus; `rca` addresses the card
/// where the command is application specific.  A command whose index does
/// not fit is refused with `InvalidArgument` before anything touches the
/// bus.  Otherwise the bus sees the script of the command, and the result
/// is what the script yields for the values that the bus returned, made
/// into a response.
pub fn execute_on<B: Bus, K: Kernel>(bus: &mut Traced<B>, cmd: &Command, rca: u16) -> (r: Result<
    Response,
    SdError,
>)
    ensures
        !cmd.valid() ==> r == Err::<Response, SdError>(SdError::InvalidArgument) && *final(bus)
            == *old(bus),
        cmd.valid() ==> executed(*cmd, rca, old(bus).seen(), final(bus).seen(), r),
{
    if !cmd.is_valid() {
        return Err(SdError::InvalidArgument);
    }
    let script = build_command_script(cmd, rca);
    proof {
        lemma_command_script_wf(*cmd, rca);
    }
    let ran = run::<B, K>(bus, script, Vec::new());
    assert(played(
        command_script(*cmd, rca),
        Seq::<u32>::empty(),
        old(bus).seen(),
        bus.seen(),
        result_view(ran),
    ));
    match ran {
        Ok(words) => decode_response(cmd, &words),
        Err(e) => Err(e),
    }
}

/// A command issued while another is in flight is refused, never put in
/// line: when the present state shows a line the command needs still in
/// use, the script ends with `InvalidArgument` right after that one read.
/// The read is all the bus sees; no register is written.
pub proof fn lemma_refused_in_flight(cmd: Command, rca: u16, first: u32, state: u32)
    requires
        state & inhibit_mask(cmd) != 0,
    ensures
        ({
            let script = command_script(cmd, rca);
            let a = next(script, Seq::empty(), start(), first);
            let b = next(script, Seq::empty(), a.0, state);
            &&& a.1 == BusOp::Read { reg: Reg::PresentState }
            &&& b.1 == BusOp::Done
            &&& b.0.stage == Stage::Done
        }),
        yields(
            command_script(cmd, rca),
            Seq::empty(),
            seq![first, state],
            Err(SdError::InvalidArgument),
        ),
        command_result(cmd, Err(SdError::InvalidArgument)) == Err::<Response, SdError>(
            SdError::InvalidArgument,
        ),
        crate::script::accesses(command_script(cmd, rca), Seq::empty(), seq![first, state]) == seq![
            Access::Read { reg: Reg::PresentState, value: state },
        ],
{
    let script = command_script(cmd, rca);
    assert(script[0] == idle_check(cmd));
    assert(state & 0 == 0) by (bit_vector);
    lemma_gate_refuses(script, Seq::empty(), first, state);
}

/// A command is refused while the lines it needs are in use: whenever a
/// command has been executed on a bus whose present state showed such a
/// line busy at every look, its result is `InvalidArgument`.
pub proof fn lemma_refused_while_busy(
    cmd: Command,
    rca: u16,
    before: Seq<Access>,
    after: Seq<Access>,
    r: Result<Response, SdError>,
)
    requires
        executed(cmd, rca, before, after, r),
        forall|j: int|
            before.len() <= j < after.len() ==> (#[trigger] after[j] matches Access::Read {
                reg,
                value,
            } ==> reg == Reg::PresentState ==> value & inhibit_mask(cmd) != 0),
    ensures
        r == Err::<Response, SdError>(SdError::InvalidArgument),
{
    let script = command_script(cmd, rca);
    let ran = choose|ran: Result<Seq<u32>, SdError>| #[trigger]
        played(script, Seq::<u32>::empty(), before, after, ran) && r == command_result(cmd, ran);
    lemma_command_script_wf(cmd, rca);
    assert(script[0] == idle_check(cmd));
    assert forall|j: int| before.len() <= j < after.len() implies starving(
        script,
        0,
        #[trigger] after[j],
    ) by {
        match after[j] {
            Access::Read { reg, value } => {
                assert(value & 0 == 0) by (bit_vector);
            },
            _ => {},
        }
    }
    lemma_starved_poll(script, Seq::empty(), 0, before, after, ran);
}

/// A command whose completion never shows times out: whenever a command
/// has been executed on a bus that showed the lines idle and, in the
/// interrupt status, neither completion nor a fault, its result is
/// `Timeout`.  The wait that gives up is one that recovers, so the circuits
/// are reset and the status cleared before the script ends: no command is
/// left pending.
pub proof fn lemma_completion_never_shows(
    cmd: Command,
    rca: u16,
    before: Seq<Access>,
    after: Seq<Access>,
    r: Result<Response, SdError>,
)
    requires
        executed(cmd, rca, before, after, r),
        forall|j: int|
            before.len() <= j < after.len() ==> (#[trigger] after[j] matches Access::Read {
                reg,
                value,
            } ==> (reg == Reg::PresentState ==> value & inhibit_mask(cmd) == 0) && (reg
                == Reg::IntStatus ==> value & INT_FAULTS == 0 && value & INT_CMD_COMPLETE
                != INT_CMD_COMPLETE)),
    ensures
        r == Err::<Response, SdError>(SdError::Timeout),
        completion_wait()->recover,
{
    let script = command_script(cmd, rca);
    let ran = choose|ran: Result<Seq<u32>, SdError>| #[trigger]
        played(script, Seq::<u32>::empty(), before, after, ran) && r == command_result(cmd, ran);
    lemma_command_script_wf(cmd, rca);
    assert(script[0] == idle_check(cmd));
    assert(script[1] is Write);
    assert(script[2] is Write);
    assert(script[3] is Write);
    assert(script[4] == completion_wait());
    assert forall|j: int| before.len() <= j < after.len() implies starving(
        script,
        4,
        #[trigger] after[j],
    ) by {
        match after[j] {
            Access::Read { reg, value } => {
                assert(value & 0 == 0) by (bit_vector);
            },
            _ => {},
        }
    }
    lemma_starved_poll(script, Seq::empty(), 4, before, after, ran);
}

/// The argument is written before the command word, and nothing comes
/// between them.
pub proof fn lemma_argument_before_command(cmd: Command, mode: u32)
    ensures
        issue_steps(cmd, mode)[0] == (Step::Write { reg: Reg::Argument, value: cmd.argument }),
        issue_steps(cmd, mode)[1] == (Step::Write {
            reg: Reg::Command,
            value: command_word(cmd, mode),
        }),
{
}

impl Response {
    /// The low 32 bits of the raw response.
    pub open spec fn low_word(self) -> u32 {
        (self.raw & 0xFFFF_FFFF) as u32
    }

    /// The card status of an `R1` or `R1b` response.
    pub open spec fn card_status_of(self) -> Result<u32, SdError> {
        if self.kind == ResponseType::R1 || self.kind == ResponseType::R1b {
            Ok(self.low_word())
        } else {
            Err(SdError::InvalidResponseType)
        }
    }

    /// The operating conditions register of an `R3` response.
    pub open spec fn ocr_of(self) -> Result<u32, SdError> {
        if self.kind == ResponseType::R3 {
            Ok(self.low_word())
        } else {
            Err(SdError::InvalidResponseType)
        }
    }

    /// The relative card address of an `R6` response: its high half.
    pub open spec fn rca_of(self) -> Result<u16, SdError> {
        if self.kind == ResponseType::R6 {
            Ok((self.low_word() >> 16) as u16)
        } else {
            Err(SdError::InvalidResponseType)
        }
    }

    /// The echoed voltage and check pattern of an `R7` response: its low
    /// twelve bits.
    pub open spec fn echo_of(self) -> Result<u32, SdError> {
        if self.kind == ResponseType::R7 {
            Ok(self.low_word() & 0xFFF)
        } else {
            Err(SdError::InvalidResponseType)
        }
    }

    /// The 128 bits of an `R2` response.
    pub open spec fn long_of(self) -> Result<u128, SdError> {
        if self.kind == ResponseType::R2 {
            Ok(self.raw)
        } else {
            Err(SdError::InvalidResponseType)
        }
    }

    fn low(&self) -> (w: u32)
        ensures
            w == self.low_word(),
    {
        (self.raw & 0xFFFF_FFFF) as u32
    }

    /// The card status, for an `R1` or `R1b` response.
    pub fn card_status(&self) -> (r: Result<u32, SdError>)
        ensures
            r == self.card_status_of(),
    {
        match self.kind {
            ResponseType::R1 | ResponseType::R1b => Ok(self.low()),
            _ => Err(SdError::InvalidResponseType),
        }
    }

    /// The operating conditions register, for an `R3` response.
    pub fn ocr(&self) -> (r: Result<u32, SdError>)
        ensures
            r == self.ocr_of(),
    {
        match self.kind {
            ResponseType::R3 => Ok(self.low()),
            _ => Err(SdError::InvalidResponseType),
        }
    }

    /// The relative card address, for an `R6` response.
    pub fn rca(&self) -> (r: Result<u16, SdError>)
        ensures
            r == self.rca_of(),
    {
        match self.kind {
            ResponseType::R6 => Ok((self.low() >> 16) as u16),
            _ => Err(SdError::InvalidResponseType),
        }
    }

    /// The echoed voltage and check pattern, for an `R7` response.
    pub fn echo(&self) -> (r: Result<u32, SdError>)
        ensures
            r == self.echo_of(),
    {
        match self.kind {
            ResponseType::R7 => Ok(self.low() & 0xFFF),
            _ => Err(SdError::InvalidResponseType),
        }
    }

    /// The 128 bits of an `R2` response.
    pub fn long(&self) -> (r: Result<u128, SdError>)
        ensures
            r == self.long_of(),
    {
        match self.kind {
            ResponseType::R2 => Ok(self.raw),
            _ => Err(SdError::InvalidResponseType),
        }
    }
}

} // verus!
