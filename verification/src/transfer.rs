//! The data transfer engine: scripts that move whole blocks between the
//! host and the card, by programmed I/O through the buffer data window or
//! by a descriptor chain that the controller walks on its own.

use crate::classify::{card_fault, classify_card_status};
use crate::command::{idle_check, issue_steps, push_issue, push_prologue, Command};
use crate::err::SdError;
use crate::regs::{
    Access, Traced,
    Bus, Kernel, Reg, INT_ALL, INT_BUFFER_READ_READY, INT_BUFFER_WRITE_READY, INT_DMA, INT_FAULTS,
    INT_TRANSFER_COMPLETE, MODE_AUTO_CMD12, MODE_BLOCK_COUNT, MODE_DMA, MODE_MULTI_BLOCK,
    MODE_READ,
};
use crate::script::{
    accesses, keeps_in_turn, lemma_kept_in_turn, lemma_starved_poll, lemma_steps_wf_join,
    lemma_writes_complete, lemma_writes_in_join, passes, played, reads_of, result_view, run,
    starves, starving, step_writes, steps_wf, writes_in, writes_of, yields, Step,
};
use crate::dma::{chain_from, gather, lemma_gather_is_buffer};
use crate::words::{lemma_unpack_pack, pack, pack_words, unpack, unpack_words};
use vstd::prelude::*;

verus! {

/// Which way the data moves.
#[derive(Clone, Copy, Debug, PartialEq, Eq, Structural)]
pub enum Direction {
    /// From the card to the host.
    Read,
    /// From the host to the card.
    Write,
}

/// The most blocks one transfer can move.
pub const MAX_BLOCKS: u32 = 65_535;
/// The words of a full block.
pub const WORDS_PER_BLOCK: usize = 128;
/// Reads of the interrupt status that the data path may take at each wait.
pub const DATA_POLLS: u32 = 100_000;
/// Microseconds between two such reads.
pub const DATA_INTERVAL_US: u64 = 10;
/// The data timeout counter value programmed for every transfer.
pub const DATA_TIMEOUT_VALUE: u32 = 0x0E;

/// The transfer mode of a transfer: the direction, and for more than one
/// block the block counter and the automatic stop command.
pub open spec fn transfer_mode(dir: Direction, blocks: u32, dma: bool) -> u32 {
    (if dir == Direction::Read { MODE_READ } else { 0 }) | (if blocks > 1 {
        MODE_MULTI_BLOCK | MODE_BLOCK_COUNT | MODE_AUTO_CMD12
    } else {
        0
    }) | (if dma { MODE_DMA } else { 0 })
}

/// Computes the transfer mode of a transfer.
pub fn mode_for(dir: Direction, blocks: u32, dma: bool) -> (m: u32)
    ensures
        m == transfer_mode(dir, blocks, dma),
{
    let read: u32 = match dir {
        Direction::Read => MODE_READ,
        Direction::Write => 0,
    };
    read | (if blocks > 1 {
        MODE_MULTI_BLOCK | MODE_BLOCK_COUNT | MODE_AUTO_CMD12
    } else {
        0
    }) | (if dma { MODE_DMA } else { 0 })
}

/// The status bit that tells that the buffer is ready for the next block.
pub open spec fn ready_bit(dir: Direction) -> u32 {
    if dir == Direction::Read { INT_BUFFER_READ_READY } else { INT_BUFFER_WRITE_READY }
}

/// The bounded wait for the buffer to be ready for one block.
pub open spec fn ready_wait(dir: Direction) -> Step {
    Step::Poll {
        reg: Reg::IntStatus,
        mask: ready_bit(dir),
        want: ready_bit(dir),
        fault: INT_FAULTS,
        budget: DATA_POLLS,
        interval_us: DATA_INTERVAL_US,
        on_timeout: SdError::DataTimeout,
        recover: true,
    }
}

/// The bounded wait for the transfer to complete.
pub open spec fn transfer_wait() -> Step {
    Step::Poll {
        reg: Reg::IntStatus,
        mask: INT_TRANSFER_COMPLETE,
        want: INT_TRANSFER_COMPLETE,
        fault: INT_FAULTS,
        budget: DATA_POLLS,
        interval_us: DATA_INTERVAL_US,
        on_timeout: SdError::DataTimeout,
        recover: true,
    }
}

/// Setting up the block geometry and the data timeout.
pub open spec fn geometry_steps(blocks: u32, block_len: u32) -> Seq<Step> {
    seq![
        Step::Write { reg: Reg::BlockSize, value: block_len },
        Step::Write { reg: Reg::BlockCount, value: blocks },
        Step::Write { reg: Reg::TimeoutControl, value: DATA_TIMEOUT_VALUE },
    ]
}

/// The steps that move block `index` through the buffer data window: wait
/// until the buffer is ready, clear the flag, move the words one by one.
pub open spec fn block_steps(dir: Direction, index: int, words: usize) -> Seq<Step> {
    seq![
        ready_wait(dir),
        Step::Write { reg: Reg::IntStatus, value: ready_bit(dir) },
        if dir == Direction::Read {
            Step::Read { reg: Reg::BufferData, count: words }
        } else {
            Step::WriteData { reg: Reg::BufferData, start: (index * words) as usize, count: words }
        },
    ]
}

/// The steps that move the first `n` blocks.
pub open spec fn blocks_steps(dir: Direction, n: int, words: usize) -> Seq<Step>
    decreases n,
{
    if n <= 0 {
        Seq::empty()
    } else {
        blocks_steps(dir, n - 1, words) + block_steps(dir, n - 1, words)
    }
}

/// The start of every data script: refuse it while the lines are busy,
/// clear what is pending.
pub open spec fn data_head(cmd: Command) -> Seq<Step> {
    seq![idle_check(cmd), Step::Write { reg: Reg::IntStatus, value: INT_ALL }]
}

/// The end of a programmed transfer: wait for completion, clear the flag.
pub open spec fn pio_tail() -> Seq<Step> {
    seq![transfer_wait(), Step::Write { reg: Reg::IntStatus, value: INT_TRANSFER_COMPLETE }]
}

/// The script of a transfer by programmed I/O of `blocks` blocks of
/// `words` words each.
pub open spec fn pio_script(cmd: Command, dir: Direction, blocks: u32, words: usize) -> Seq<Step> {
    data_head(cmd) + geometry_steps(blocks, (4 * words) as u32) + issue_steps(
        cmd,
        transfer_mode(dir, blocks, false),
    ) + seq![Step::Read { reg: Reg::Response0, count: 1 }] + blocks_steps(dir, blocks as int, words)
        + pio_tail()
}

/// Pointing the controller at the descriptor table.
pub open spec fn table_steps(table: u64, control: u32) -> Seq<Step> {
    seq![
        Step::Write { reg: Reg::AdmaAddressLow, value: (table & 0xFFFF_FFFF) as u32 },
        Step::Write { reg: Reg::AdmaAddressHigh, value: (table >> 32) as u32 },
        Step::Write { reg: Reg::HostControl1, value: control },
    ]
}

/// The end of a descriptor transfer: the one wait for completion, and the
/// clearing of its flags.
pub open spec fn dma_tail() -> Seq<Step> {
    seq![
        transfer_wait(),
        Step::Write { reg: Reg::IntStatus, value: INT_TRANSFER_COMPLETE | INT_DMA },
    ]
}

/// The script of a transfer of `blocks` full blocks by a descriptor chain
/// whose table lies at `table`; `control` is the host control word that
/// selects descriptor transfers.
pub open spec fn dma_script(cmd: Command, dir: Direction, blocks: u32, table: u64, control: u32) -> Seq<
    Step,
> {
    data_head(cmd) + table_steps(table, control) + geometry_steps(blocks, 512) + issue_steps(
        cmd,
        transfer_mode(dir, blocks, true),
    ) + seq![Step::Read { reg: Reg::Response0, count: 1 }] + dma_tail()
}

/// The data words that a script hands to the buffer data window, in order.
pub open spec fn words_written(script: Seq<Step>, data: Seq<u32>) -> Seq<u32> {
    writes_in(script, data, Reg::BufferData)
}

proof fn lemma_blocks_wf(dir: Direction, n: int, words: usize, data_len: int)
    requires
        words >= 1,
        0 <= n,
        n * words <= usize::MAX,
        dir == Direction::Write ==> n * words <= data_len,
        data_len >= 0,
    ensures
        steps_wf(blocks_steps(dir, n, words), data_len),
    decreases n,
{
    if n > 0 {
        assert((n - 1) * words + words == n * words) by (nonlinear_arith);
        assert(0 <= (n - 1) * words) by (nonlinear_arith)
            requires
                n >= 1,
                words >= 1,
        ;
        lemma_blocks_wf(dir, n - 1, words, data_len);
        lemma_steps_wf_join(
            blocks_steps(dir, n - 1, words),
            block_steps(dir, n - 1, words),
            data_len,
        );
    }
}

/// The script of a programmed transfer is well formed for data that holds
/// every word it writes.
pub proof fn lemma_pio_script_wf(
    cmd: Command,
    dir: Direction,
    blocks: u32,
    words: usize,
    data_len: int,
)
    requires
        1 <= words <= WORDS_PER_BLOCK,
        blocks <= MAX_BLOCKS,
        data_len >= 0,
        dir == Direction::Write ==> blocks * words <= data_len,
    ensures
        steps_wf(pio_script(cmd, dir, blocks, words), data_len),
{
    let mode = transfer_mode(dir, blocks, false);
    let a = data_head(cmd) + geometry_steps(blocks, (4 * words) as u32);
    let b = a + issue_steps(cmd, mode);
    let c = b + seq![Step::Read { reg: Reg::Response0, count: 1 }];
    let d = c + blocks_steps(dir, blocks as int, words);
    assert(blocks * words <= 65_535 * 128) by (nonlinear_arith)
        requires
            blocks <= 65_535,
            words <= 128,
    ;
    lemma_blocks_wf(dir, blocks as int, words, data_len);
    lemma_steps_wf_join(data_head(cmd), geometry_steps(blocks, (4 * words) as u32), data_len);
    assert(steps_wf(issue_steps(cmd, mode), data_len));
    lemma_steps_wf_join(a, issue_steps(cmd, mode), data_len);
    lemma_steps_wf_join(b, seq![Step::Read { reg: Reg::Response0, count: 1 }], data_len);
    lemma_steps_wf_join(c, blocks_steps(dir, blocks as int, words), data_len);
    lemma_steps_wf_join(d, pio_tail(), data_len);
}

/// The script of a descriptor transfer is well formed and needs no data.
pub proof fn lemma_dma_script_wf(
    cmd: Command,
    dir: Direction,
    blocks: u32,
    table: u64,
    control: u32,
)
    ensures
        steps_wf(dma_script(cmd, dir, blocks, table, control), 0),
{
    let mode = transfer_mode(dir, blocks, true);
    let a = data_head(cmd) + table_steps(table, control);
    let b = a + geometry_steps(blocks, 512);
    let c = b + issue_steps(cmd, mode);
    let d = c + seq![Step::Read { reg: Reg::Response0, count: 1 }];
    lemma_steps_wf_join(data_head(cmd), table_steps(table, control), 0);
    lemma_steps_wf_join(a, geometry_steps(blocks, 512), 0);
    assert(steps_wf(issue_steps(cmd, mode), 0));
    lemma_steps_wf_join(b, issue_steps(cmd, mode), 0);
    lemma_steps_wf_join(c, seq![Step::Read { reg: Reg::Response0, count: 1 }], 0);
    lemma_steps_wf_join(d, dma_tail(), 0);
}

/// The steps write nothing to the buffer data window.
pub open spec fn silent(steps: Seq<Step>, data: Seq<u32>) -> bool {
    forall|i: int|
        0 <= i < steps.len() ==> step_writes(#[trigger] steps[i], data, Reg::BufferData)
            == Seq::<u32>::empty()
}

proof fn lemma_silent(a: Seq<Step>, data: Seq<u32>)
    requires
        silent(a, data),
    ensures
        words_written(a, data) == Seq::<u32>::empty(),
    decreases a.len(),
{
    if a.len() > 0 {
        assert forall|i: int| 0 <= i < a.drop_last().len() implies step_writes(
            #[trigger] a.drop_last()[i],
            data,
            Reg::BufferData,
        ) == Seq::<u32>::empty() by {
            assert(a.drop_last()[i] == a[i]);
        }
        lemma_silent(a.drop_last(), data);
        assert(step_writes(a[a.len() - 1], data, Reg::BufferData) == Seq::<u32>::empty());
    }
}

proof fn lemma_blocks_written(n: int, words: usize, data: Seq<u32>)
    requires
        words >= 1,
        0 <= n,
        n * words <= data.len(),
        n * words <= usize::MAX,
    ensures
        words_written(blocks_steps(Direction::Write, n, words), data) == data.subrange(
            0,
            n * words,
        ),
    decreases n,
{
    if n > 0 {
        assert((n - 1) * words + words == n * words) by (nonlinear_arith);
        assert(0 <= (n - 1) * words) by (nonlinear_arith)
            requires
                n >= 1,
                words >= 1,
        ;
        lemma_blocks_written(n - 1, words, data);
        let before = blocks_steps(Direction::Write, n - 1, words);
        let block = block_steps(Direction::Write, n - 1, words);
        lemma_writes_in_join(before, block, data, Reg::BufferData);
        let head = seq![
            ready_wait(Direction::Write),
            Step::Write { reg: Reg::IntStatus, value: ready_bit(Direction::Write) },
        ];
        let k = (n - 1) * words;
        assert(k <= n * words);
        assert((k as usize) as int == k);
        let last = seq![Step::WriteData { reg: Reg::BufferData, start: k as usize, count: words }];
        assert(block =~= head + last);
        lemma_writes_in_join(head, last, data, Reg::BufferData);
        lemma_silent(head, data);
        assert(last.drop_last() =~= Seq::<Step>::empty());
        assert(last.last() == Step::WriteData {
            reg: Reg::BufferData,
            start: k as usize,
            count: words,
        });
        assert(writes_in(last.drop_last(), data, Reg::BufferData) =~= Seq::<u32>::empty());
        assert(step_writes(last.last(), data, Reg::BufferData) =~= data.subrange(
            k,
            k + words as int,
        ));
        assert(words_written(last, data) =~= Seq::<u32>::empty() + data.subrange(
            k,
            k + words as int,
        ));
        assert(data.subrange(0, (n - 1) * words) + data.subrange((n - 1) * words, n * words)
            =~= data.subrange(0, n * words));
        assert(words_written(block, data) =~= data.subrange((n - 1) * words, n * words));
        assert(blocks_steps(Direction::Write, n, words) == before + block);
        assert(words_written(before + block, data) =~= data.subrange(0, n * words));
    } else {
        assert(n * words == 0) by (nonlinear_arith)
            requires
                n == 0,
        ;
        assert(blocks_steps(Direction::Write, n, words) =~= Seq::<Step>::empty());
        assert(data.subrange(0, 0) =~= Seq::<u32>::empty());
    }
}

/// A write by programmed I/O hands the card every word of its data, in
/// order, and nothing else.
pub proof fn lemma_pio_writes_data(cmd: Command, blocks: u32, words: usize, data: Seq<u32>)
    requires
        1 <= words <= WORDS_PER_BLOCK,
        blocks <= MAX_BLOCKS,
        data.len() == blocks * words,
    ensures
        words_written(pio_script(cmd, Direction::Write, blocks, words), data) == data,
{
    let mode = transfer_mode(Direction::Write, blocks, false);
    let a = data_head(cmd) + geometry_steps(blocks, (4 * words) as u32) + issue_steps(cmd, mode)
        + seq![Step::Read { reg: Reg::Response0, count: 1 }];
    let b = blocks_steps(Direction::Write, blocks as int, words);
    assert(blocks * words <= 65_535 * 128) by (nonlinear_arith)
        requires
            blocks <= 65_535,
            words <= 128,
    ;
    assert(silent(a, data));
    assert(silent(pio_tail(), data));
    lemma_silent(a, data);
    lemma_silent(pio_tail(), data);
    lemma_blocks_written(blocks as int, words, data);
    lemma_writes_in_join(a, b, data, Reg::BufferData);
    lemma_writes_in_join(a + b, pio_tail(), data, Reg::BufferData);
    assert(data.subrange(0, data.len() as int) =~= data);
    assert(Seq::<u32>::empty() + data + Seq::<u32>::empty() =~= data);
}

/// The bus sees what a write hands over: whenever a write by programmed
/// I/O has gone through on a bus, the values that the bus has seen written
/// to the buffer data window are the data words, each once and in order.
pub proof fn lemma_write_seen(
    cmd: Command,
    blocks: u32,
    words: usize,
    data: Seq<u32>,
    before: Seq<Access>,
    after: Seq<Access>,
)
    requires
        1 <= words <= WORDS_PER_BLOCK,
        blocks <= MAX_BLOCKS,
        data.len() == blocks * words,
        written_by_pio(cmd, blocks, words, data, before, after, Ok(())),
    ensures
        before.len() <= after.len(),
        writes_of(after.subrange(before.len() as int, after.len() as int), Reg::BufferData)
            == data,
{
    let script = pio_script(cmd, Direction::Write, blocks, words);
    let ran = choose|ran: Result<Seq<u32>, SdError>| #[trigger]
        played(script, data, before, after, ran) && Ok::<(), SdError>(()) == write_result(ran);
    lemma_pio_script_wf(cmd, Direction::Write, blocks, words, data.len() as int);
    lemma_writes_complete(script, data, Reg::BufferData, before, after, ran->Ok_0);
    lemma_pio_writes_data(cmd, blocks, words, data);
}

/// A read returns what the bus gave: whenever a read by programmed I/O has
/// gone through on a bus that gave the buffer data window as many values as
/// the blocks hold words, the bytes read are the bytes of those values, in
/// order.
pub proof fn lemma_read_seen(
    cmd: Command,
    blocks: u32,
    before: Seq<Access>,
    after: Seq<Access>,
    bytes: Seq<u8>,
)
    requires
        1 <= blocks <= MAX_BLOCKS,
        read_by_pio(cmd, blocks, WORDS_PER_BLOCK, before, after, Ok(bytes)),
        before.len() <= after.len(),
        reads_of(
            after.subrange(before.len() as int, after.len() as int),
            Reg::BufferData,
        ).len() == blocks * WORDS_PER_BLOCK,
    ensures
        bytes == unpack(
            reads_of(after.subrange(before.len() as int, after.len() as int), Reg::BufferData),
        ),
{
    let script = pio_script(cmd, Direction::Read, blocks, WORDS_PER_BLOCK);
    let ran = choose|ran: Result<Seq<u32>, SdError>| #[trigger]
        played(script, Seq::<u32>::empty(), before, after, ran) && Ok::<Seq<u8>, SdError>(bytes)
            == bytes_result(data_result(ran, blocks * WORDS_PER_BLOCK));
    let inputs = choose|inputs: Seq<u32>| #[trigger]
        yields(script, Seq::<u32>::empty(), inputs, ran) && after == before + accesses(
            script,
            Seq::<u32>::empty(),
            inputs,
        );
    let seen = accesses(script, Seq::<u32>::empty(), inputs);
    assert(after.subrange(before.len() as int, after.len() as int) =~= seen);
    lemma_pio_script_wf(cmd, Direction::Read, blocks, WORDS_PER_BLOCK, 0);
    lemma_read_keeps_in_turn(cmd, blocks);
    lemma_kept_in_turn(script, Seq::<u32>::empty(), Reg::Response0, Reg::BufferData, 10, inputs);
    let kept = ran->Ok_0;
    let status = reads_of(seen, Reg::Response0);
    let words = reads_of(seen, Reg::BufferData);
    assert(kept == status + words);
    assert(kept.len() == 1 + blocks * WORDS_PER_BLOCK);
    assert(status.len() == 1);
    assert(kept.subrange(1, kept.len() as int) =~= words);
}

proof fn lemma_read_keeps_in_turn(cmd: Command, blocks: u32)
    requires
        1 <= blocks <= MAX_BLOCKS,
    ensures
        keeps_in_turn(
            pio_script(cmd, Direction::Read, blocks, WORDS_PER_BLOCK),
            Reg::Response0,
            Reg::BufferData,
            10,
        ),
{
    let script = pio_script(cmd, Direction::Read, blocks, WORDS_PER_BLOCK);
    let mode = transfer_mode(Direction::Read, blocks, false);
    let head = data_head(cmd) + geometry_steps(blocks, 512) + issue_steps(cmd, mode) + seq![
        Step::Read { reg: Reg::Response0, count: 1 },
    ];
    let body = blocks_steps(Direction::Read, blocks as int, WORDS_PER_BLOCK);
    assert(head.len() == 10);
    assert(script =~= head + body + pio_tail());
    lemma_blocks_keep(blocks as int);
    assert forall|i: int| 0 <= i < script.len() implies match #[trigger] script[i] {
        Step::Read { reg: r, .. } => if i < 10 {
            r == Reg::Response0
        } else {
            r == Reg::BufferData
        },
        Step::Poll { reg: r, .. } => r != Reg::Response0 && r != Reg::BufferData,
        _ => true,
    } by {
        if i < 10 {
            assert(script[i] == head[i]);
        } else if i < 10 + body.len() {
            assert(script[i] == body[i - 10]);
        } else {
            assert(script[i] == pio_tail()[i - 10 - body.len()]);
        }
    }
}

proof fn lemma_blocks_keep(n: int)
    requires
        n >= 0,
    ensures
        forall|i: int|
            0 <= i < blocks_steps(Direction::Read, n, WORDS_PER_BLOCK).len() ==> match #[trigger] blocks_steps(
                Direction::Read,
                n,
                WORDS_PER_BLOCK,
            )[i] {
                Step::Read { reg: r, .. } => r == Reg::BufferData,
                Step::Poll { reg: r, .. } => r == Reg::IntStatus,
                _ => true,
            },
    decreases n,
{
    if n > 0 {
        lemma_blocks_keep(n - 1);
        let before = blocks_steps(Direction::Read, n - 1, WORDS_PER_BLOCK);
        let block = block_steps(Direction::Read, n - 1, WORDS_PER_BLOCK);
        let all = blocks_steps(Direction::Read, n, WORDS_PER_BLOCK);
        assert(all == before + block);
        assert forall|i: int| 0 <= i < all.len() implies match #[trigger] all[i] {
            Step::Read { reg: r, .. } => r == Reg::BufferData,
            Step::Poll { reg: r, .. } => r == Reg::IntStatus,
            _ => true,
        } by {
            if i < before.len() {
                assert(all[i] == before[i]);
            } else {
                assert(all[i] == block[i - before.len()]);
            }
        }
    }
}

/// What is written and read again comes back unchanged.  Whenever a write
/// of whole blocks has gone through on a bus, and a read has gone through
/// to which the bus gave back, at the buffer data window, the very values
/// that it had seen written there, the bytes read are the bytes that were
/// written, byte for byte.
pub proof fn lemma_round_trip(
    write: Command,
    read: Command,
    blocks: u32,
    bytes: Seq<u8>,
    w0: Seq<Access>,
    w1: Seq<Access>,
    r0: Seq<Access>,
    r1: Seq<Access>,
    back: Seq<u8>,
)
    requires
        1 <= blocks <= MAX_BLOCKS,
        bytes.len() == blocks * 512,
        written_by_pio(write, blocks, WORDS_PER_BLOCK, pack(bytes), w0, w1, Ok(())),
        read_by_pio(read, blocks, WORDS_PER_BLOCK, r0, r1, Ok(back)),
        w0.len() <= w1.len(),
        r0.len() <= r1.len(),
        reads_of(r1.subrange(r0.len() as int, r1.len() as int), Reg::BufferData) == writes_of(
            w1.subrange(w0.len() as int, w1.len() as int),
            Reg::BufferData,
        ),
    ensures
        back == bytes,
{
    let words = pack(bytes);
    assert(words.len() == blocks * 128);
    lemma_write_seen(write, blocks, WORDS_PER_BLOCK, words, w0, w1);
    lemma_read_seen(read, blocks, r0, r1, back);
    lemma_unpack_pack(bytes);
}

/// Both paths put the same bytes on the card.  For one buffer, the bytes
/// that the bus sees written through the buffer data window when a
/// programmed write has gone through, and the bytes that the descriptor
/// chain of the buffer gathers, are the same: the buffer.
pub proof fn lemma_paths_agree(
    cmd: Command,
    addr: u64,
    bytes: Seq<u8>,
    blocks: u32,
    before: Seq<Access>,
    after: Seq<Access>,
)
    requires
        1 <= blocks <= MAX_BLOCKS,
        bytes.len() == blocks * 512,
        addr + bytes.len() <= u64::MAX,
        written_by_pio(cmd, blocks, WORDS_PER_BLOCK, pack(bytes), before, after, Ok(())),
    ensures
        before.len() <= after.len(),
        unpack(
            writes_of(after.subrange(before.len() as int, after.len() as int), Reg::BufferData),
        ) == gather(chain_from(addr as int, bytes.len() as int), addr as int, bytes),
        gather(chain_from(addr as int, bytes.len() as int), addr as int, bytes) == bytes,
{
    let words = pack(bytes);
    assert(words.len() == blocks * 128);
    lemma_write_seen(cmd, blocks, WORDS_PER_BLOCK, words, before, after);
    lemma_unpack_pack(bytes);
    lemma_gather_is_buffer(addr as int, bytes);
}

/// A block that never becomes ready ends the transfer with `DataTimeout`:
/// whenever a read has been played on a bus that showed the lines idle and,
/// in the interrupt status, the command complete and no fault but never the
/// buffer ready, that is its result.
pub proof fn lemma_block_never_ready(
    cmd: Command,
    blocks: u32,
    before: Seq<Access>,
    after: Seq<Access>,
    r: Result<Seq<u8>, SdError>,
)
    requires
        1 <= blocks <= MAX_BLOCKS,
        read_by_pio(cmd, blocks, WORDS_PER_BLOCK, before, after, r),
        forall|j: int|
            before.len() <= j < after.len() ==> (#[trigger] after[j] matches Access::Read {
                reg,
                value,
            } ==> (reg == Reg::PresentState ==> value & crate::command::inhibit_mask(cmd) == 0)
                && (reg == Reg::IntStatus ==> value & INT_FAULTS == 0 && value
                & crate::regs::INT_CMD_COMPLETE == crate::regs::INT_CMD_COMPLETE && value
                & INT_BUFFER_READ_READY != INT_BUFFER_READ_READY)),
    ensures
        r == Err::<Seq<u8>, SdError>(SdError::DataTimeout),
{
    let script = pio_script(cmd, Direction::Read, blocks, WORDS_PER_BLOCK);
    let ran = choose|ran: Result<Seq<u32>, SdError>| #[trigger]
        played(script, Seq::<u32>::empty(), before, after, ran) && r == bytes_result(
            data_result(ran, blocks * WORDS_PER_BLOCK),
        );
    let mode = transfer_mode(Direction::Read, blocks, false);
    lemma_pio_script_wf(cmd, Direction::Read, blocks, WORDS_PER_BLOCK, 0);
    let head = data_head(cmd) + geometry_steps(blocks, 512) + issue_steps(cmd, mode) + seq![
        Step::Read { reg: Reg::Response0, count: 1 },
    ];
    assert(head.len() == 10);
    lemma_first_block(blocks as int);
    let body = blocks_steps(Direction::Read, blocks as int, WORDS_PER_BLOCK);
    assert(body[0] == ready_wait(Direction::Read));
    assert(script =~= head + body + pio_tail());
    assert(script[10] == ready_wait(Direction::Read));
    assert forall|i: int| 0 <= i < 10 implies #[trigger] script[i] == head[i] by {}
    assert(head[0] == idle_check(cmd));
    assert(head[7] == crate::command::completion_wait());
    assert forall|i: int| 0 <= i < 10 && i != 0 && i != 7 implies !(#[trigger] head[i] is Poll) by {}
    assert forall|j: int| before.len() <= j < after.len() implies starving(
        script,
        10,
        #[trigger] after[j],
    ) by {
        match after[j] {
            Access::Read { reg, value } => {
                assert(value & 0 == 0) by (bit_vector);
                assert forall|i: int|
                    0 <= i <= 10 && (#[trigger] script[i]) is Poll && script[i]->Poll_reg
                        == reg implies if i < 10 {
                    passes(script[i], value)
                } else {
                    starves(script[i], value)
                } by {
                    if i < 10 {
                        assert(script[i] == head[i]);
                        assert(i == 0 || i == 7);
                    }
                }
            },
            _ => {},
        }
    }
    lemma_starved_poll(script, Seq::empty(), 10, before, after, ran);
}

proof fn lemma_first_block(n: int)
    requires
        n >= 1,
    ensures
        blocks_steps(Direction::Read, n, WORDS_PER_BLOCK).len() >= 3,
        blocks_steps(Direction::Read, n, WORDS_PER_BLOCK)[0] == ready_wait(Direction::Read),
    decreases n,
{
    if n > 1 {
        lemma_first_block(n - 1);
    } else {
        reveal_with_fuel(blocks_steps, 2);
    }
}

fn push_geometry(script: &mut Vec<Step>, blocks: u32, block_len: u32)
    ensures
        final(script)@ == old(script)@ + geometry_steps(blocks, block_len),
{
    script.push(Step::Write { reg: Reg::BlockSize, value: block_len });
    script.push(Step::Write { reg: Reg::BlockCount, value: blocks });
    script.push(Step::Write { reg: Reg::TimeoutControl, value: DATA_TIMEOUT_VALUE });
    assert(script@ =~= old(script)@ + geometry_steps(blocks, block_len));
}

fn push_wait(script: &mut Vec<Step>, bit: u32)
    ensures
        final(script)@ == old(script)@.push(
            Step::Poll {
                reg: Reg::IntStatus,
                mask: bit,
                want: bit,
                fault: INT_FAULTS,
                budget: DATA_POLLS,
                interval_us: DATA_INTERVAL_US,
                on_timeout: SdError::DataTimeout,
                recover: true,
            },
        ),
{
    script.push(
        Step::Poll {
            reg: Reg::IntStatus,
            mask: bit,
            want: bit,
            fault: INT_FAULTS,
            budget: DATA_POLLS,
            interval_us: DATA_INTERVAL_US,
            on_timeout: SdError::DataTimeout,
            recover: true,
        },
    );
}

/// Builds the script of a transfer by programmed I/O.
pub fn build_pio_script(cmd: &Command, dir: Direction, blocks: u32, words: usize) -> (script: Vec<
    Step,
>)
    requires
        1 <= words <= WORDS_PER_BLOCK,
        blocks <= MAX_BLOCKS,
    ensures
        script@ == pio_script(*cmd, dir, blocks, words),
{
    let mut script: Vec<Step> = Vec::new();
    push_prologue(&mut script, cmd);
    push_geometry(&mut script, blocks, (4 * words) as u32);
    push_issue(&mut script, cmd, mode_for(dir, blocks, false));
    script.push(Step::Read { reg: Reg::Response0, count: 1 });
    let ghost head = script@;
    assert(head =~= data_head(*cmd) + geometry_steps(blocks, (4 * words) as u32) + issue_steps(
        *cmd,
        transfer_mode(dir, blocks, false),
    ) + seq![Step::Read { reg: Reg::Response0, count: 1 }]);
    let bit: u32 = match dir {
        Direction::Read => INT_BUFFER_READ_READY,
        Direction::Write => INT_BUFFER_WRITE_READY,
    };
    let mut i: u32 = 0;
    while i < blocks
        invariant
            i <= blocks,
            blocks <= MAX_BLOCKS,
            1 <= words <= WORDS_PER_BLOCK,
            bit == ready_bit(dir),
            script@ == head + blocks_steps(dir, i as int, words),
        decreases blocks - i,
    {
        let ghost before = script@;
        push_wait(&mut script, bit);
        script.push(Step::Write { reg: Reg::IntStatus, value: bit });
        assert(i * words <= 65_535 * 128) by (nonlinear_arith)
            requires
                i <= 65_535,
                words <= 128,
        ;
        match dir {
            Direction::Read => {
                script.push(Step::Read { reg: Reg::BufferData, count: words });
            },
            Direction::Write => {
                script.push(
                    Step::WriteData { reg: Reg::BufferData, start: i as usize * words, count: words },
                );
            },
        }
        assert(script@ =~= before + block_steps(dir, i as int, words));
        assert(head + blocks_steps(dir, i as int, words) + block_steps(dir, i as int, words)
            =~= head + blocks_steps(dir, i as int + 1, words));
        i += 1;
    }
    push_wait(&mut script, INT_TRANSFER_COMPLETE);
    script.push(Step::Write { reg: Reg::IntStatus, value: INT_TRANSFER_COMPLETE });
    assert(script@ =~= pio_script(*cmd, dir, blocks, words));
    script
}

/// Builds the script of a transfer by a descriptor chain.
pub fn build_dma_script(cmd: &Command, dir: Direction, blocks: u32, table: u64, control: u32) -> (script:
    Vec<Step>)
    ensures
        script@ == dma_script(*cmd, dir, blocks, table, control),
{
    let mut script: Vec<Step> = Vec::new();
    push_prologue(&mut script, cmd);
    let high: u64 = table >> 32;
    assert(high <= 0xFFFF_FFFF) by (bit_vector)
        requires
            high == table >> 32,
    ;
    script.push(Step::Write { reg: Reg::AdmaAddressLow, value: (table & 0xFFFF_FFFF) as u32 });
    script.push(Step::Write { reg: Reg::AdmaAddressHigh, value: high as u32 });
    script.push(Step::Write { reg: Reg::HostControl1, value: control });
    assert(script@ =~= data_head(*cmd) + table_steps(table, control));
    push_geometry(&mut script, blocks, 512);
    push_issue(&mut script, cmd, mode_for(dir, blocks, true));
    script.push(Step::Read { reg: Reg::Response0, count: 1 });
    push_wait(&mut script, INT_TRANSFER_COMPLETE);
    script.push(Step::Write { reg: Reg::IntStatus, value: INT_TRANSFER_COMPLETE | INT_DMA });
    assert(script@ =~= dma_script(*cmd, dir, blocks, table, control));
    script
}

/// What a data script has moved, from what it yielded: the first word kept
/// is the card status of the command and is checked for a card fault, the
/// `count` words after it are the data read.  Fewer words are a data
/// error; more would overflow the buffer.
pub open spec fn data_result(ran: Result<Seq<u32>, SdError>, count: int) -> Result<
    Seq<u32>,
    SdError,
> {
    match ran {
        Err(e) => Err(e),
        Ok(words) => if words.len() < 1 + count {
            Err(SdError::DataError)
        } else if words.len() > 1 + count {
            Err(SdError::BufferOverflow)
        } else if card_fault(words[0]) is Some {
            Err(card_fault(words[0])->0)
        } else {
            Ok(words.subrange(1, words.len() as int))
        },
    }
}

/// Takes the data words out of what a data script yielded.
pub fn decode_data(ran: Result<Vec<u32>, SdError>, count: usize) -> (r: Result<Vec<u32>, SdError>)
    ensures
        result_view(r) == data_result(result_view(ran), count as int),
{
    match ran {
        Err(e) => Err(e),
        Ok(words) => {
            let mut words = words;
            if words.len() == 0 || words.len() - 1 < count {
                return Err(SdError::DataError);
            }
            if words.len() - 1 > count {
                return Err(SdError::BufferOverflow);
            }
            match classify_card_status(words[0]) {
                Some(e) => Err(e),
                None => {
                    let ghost all = words@;
                    words.remove(0);
                    assert(words@ =~= all.subrange(1, all.len() as int));
                    Ok(words)
                },
            }
        },
    }
}

/// The bytes of the data words that a read has moved.
pub open spec fn bytes_result(moved: Result<Seq<u32>, SdError>) -> Result<Seq<u8>, SdError> {
    match moved {
        Ok(words) => Ok(unpack(words)),
        Err(e) => Err(e),
    }
}

/// The view of a read's result.
pub open spec fn bytes_view(r: Result<Vec<u8>, SdError>) -> Result<Seq<u8>, SdError> {
    match r {
        Ok(bytes) => Ok(bytes@),
        Err(e) => Err(e),
    }
}

/// `r` is what a read by programmed I/O returns for the answers that the
/// bus gave, with the record of the bus before and after: the bytes of the
/// data words in the order read, or the error the script ended with.
pub open spec fn read_by_pio(
    cmd: Command,
    blocks: u32,
    words: usize,
    before: Seq<Access>,
    after: Seq<Access>,
    r: Result<Seq<u8>, SdError>,
) -> bool {
    exists|ran: Result<Seq<u32>, SdError>| #[trigger]
        played(
            pio_script(cmd, Direction::Read, blocks, words),
            Seq::<u32>::empty(),
            before,
            after,
            ran,
        ) && r == bytes_result(data_result(ran, blocks * words))
}

/// Reads `blocks` blocks of `words` words each through the buffer data
/// window with the data command `cmd`.  The bus sees the read script, and
/// the result is what the script yields for the values that the bus
/// returned: the bytes of the data words in the order read, or the error
/// the script ended with.
pub fn pio_read<B: Bus, K: Kernel>(
    bus: &mut Traced<B>,
    cmd: &Command,
    blocks: u32,
    words: usize,
) -> (r: Result<Vec<u8>, SdError>)
    requires
        1 <= words <= WORDS_PER_BLOCK,
        blocks <= MAX_BLOCKS,
    ensures
        read_by_pio(*cmd, blocks, words, old(bus).seen(), final(bus).seen(), bytes_view(r)),
{
    let script = build_pio_script(cmd, Direction::Read, blocks, words);
    proof {
        lemma_pio_script_wf(*cmd, Direction::Read, blocks, words, 0);
    }
    assert(blocks * words <= 65_535 * 128) by (nonlinear_arith)
        requires
            blocks <= 65_535,
            words <= 128,
    ;
    let ran = run::<B, K>(bus, script, Vec::new());
    assert(played(
        pio_script(*cmd, Direction::Read, blocks, words),
        Seq::<u32>::empty(),
        old(bus).seen(),
        bus.seen(),
        result_view(ran),
    ));
    match decode_data(ran, blocks as usize * words) {
        Ok(moved) => Ok(unpack_words(&moved)),
        Err(e) => Err(e),
    }
}

/// What a write returns for what its script yielded.
pub open spec fn write_result(ran: Result<Seq<u32>, SdError>) -> Result<(), SdError> {
    match data_result(ran, 0) {
        Ok(_) => Ok(()),
        Err(e) => Err(e),
    }
}

/// `r` is what a write by programmed I/O returns for the answers that the
/// bus gave, with the record of the bus before and after.  The words handed
/// to the buffer data window are `data`.
pub open spec fn written_by_pio(
    cmd: Command,
    blocks: u32,
    words: usize,
    data: Seq<u32>,
    before: Seq<Access>,
    after: Seq<Access>,
    r: Result<(), SdError>,
) -> bool {
    exists|ran: Result<Seq<u32>, SdError>| #[trigger]
        played(pio_script(cmd, Direction::Write, blocks, words), data, before, after, ran) && r
            == write_result(ran)
}

/// Writes `bytes` through the buffer data window with the data command
/// `cmd`, as `blocks` blocks of `words` words each.  The words handed to
/// the window are the bytes packed in order.  A buffer that is not exactly
/// `blocks` blocks long is refused with `InvalidArgument` before anything
/// touches the bus.
pub fn pio_write<B: Bus, K: Kernel>(
    bus: &mut Traced<B>,
    cmd: &Command,
    blocks: u32,
    words: usize,
    bytes: &Vec<u8>,
) -> (r: Result<(), SdError>)
    requires
        1 <= words <= WORDS_PER_BLOCK,
        blocks <= MAX_BLOCKS,
    ensures
        bytes@.len() != blocks * words * 4 ==> r == Err::<(), SdError>(SdError::InvalidArgument)
            && *final(bus) == *old(bus),
        bytes@.len() == blocks * words * 4 ==> written_by_pio(
            *cmd,
            blocks,
            words,
            pack(bytes@),
            old(bus).seen(),
            final(bus).seen(),
            r,
        ),
{
    assert(blocks * words <= 65_535 * 128) by (nonlinear_arith)
        requires
            blocks <= 65_535,
            words <= 128,
    ;
    let count: usize = blocks as usize * words;
    if bytes.len() / 4 != count || bytes.len() % 4 != 0 {
        return Err(SdError::InvalidArgument);
    }
    let data = pack_words(bytes);
    let script = build_pio_script(cmd, Direction::Write, blocks, words);
    proof {
        lemma_pio_script_wf(*cmd, Direction::Write, blocks, words, data@.len() as int);
    }
    let ran = run::<B, K>(bus, script, data);
    assert(played(
        pio_script(*cmd, Direction::Write, blocks, words),
        pack(bytes@),
        old(bus).seen(),
        bus.seen(),
        result_view(ran),
    ));
    match decode_data(ran, 0) {
        Ok(_) => Ok(()),
        Err(e) => Err(e),
    }
}

/// `r` is what a transfer by descriptor chain returns for the answers that
/// the bus gave, with the record of the bus before and after.
pub open spec fn moved_by_dma(
    cmd: Command,
    dir: Direction,
    blocks: u32,
    table: u64,
    control: u32,
    before: Seq<Access>,
    after: Seq<Access>,
    r: Result<(), SdError>,
) -> bool {
    exists|ran: Result<Seq<u32>, SdError>| #[trigger]
        played(
            dma_script(cmd, dir, blocks, table, control),
            Seq::<u32>::empty(),
            before,
            after,
            ran,
        ) && r == write_result(ran)
}

/// Moves `blocks` full blocks by the descriptor chain whose table lies at
/// `table`, with the data command `cmd`.  The controller walks the chain on
/// its own; the script waits once, for the whole transfer.
pub fn dma_transfer<B: Bus, K: Kernel>(
    bus: &mut Traced<B>,
    cmd: &Command,
    dir: Direction,
    blocks: u32,
    table: u64,
    control: u32,
) -> (r: Result<(), SdError>)
    ensures
        moved_by_dma(*cmd, dir, blocks, table, control, old(bus).seen(), final(bus).seen(), r),
{
    let script = build_dma_script(cmd, dir, blocks, table, control);
    proof {
        lemma_dma_script_wf(*cmd, dir, blocks, table, control);
    }
    let ran = run::<B, K>(bus, script, Vec::new());
    assert(played(
        dma_script(*cmd, dir, blocks, table, control),
        Seq::<u32>::empty(),
        old(bus).seen(),
        bus.seen(),
        result_view(ran),
    ));
    match decode_data(ran, 0) {
        Ok(_) => Ok(()),
        Err(e) => Err(e),
    }
}

} // verus!
