//! Block transfers of a host whose card is ready: whole blocks of 512
//! bytes, by programmed I/O or by a descriptor chain.

use crate::command::{Command, Response, ResponseType};
use crate::dma::{covers, TransferDescriptor, DMA_BOUNDARY, MAX_DESCRIPTOR_LEN};
use crate::emmc::{commanded, EMmcHost};
use crate::err::SdError;
use crate::regs::{Access, Bus, Kernel, Traced};
use crate::signal::{control1_word, encode_control1, mode_needs_tuning, needs_tuning};
use crate::transfer::{
    bytes_view, dma_transfer, moved_by_dma, pio_read, pio_write, read_by_pio, written_by_pio,
    Direction, MAX_BLOCKS, WORDS_PER_BLOCK,
};
use crate::words::pack;
use vstd::prelude::*;

verus! {

/// Whether the host may move data: the session is ready, the clock runs,
/// and the sampling point is tuned where the timing mode needs it.
pub open spec fn can_transfer(h: EMmcHost) -> bool {
    &&& h.session.phase is Ready
    &&& h.clock_hz != 0
    &&& needs_tuning(h.session.timing) ==> h.tuned
}

/// The address a card takes for a block: the block number where the card
/// is addressed by block, else the byte offset, which must fit the
/// argument.
pub open spec fn block_address(h: EMmcHost, start: u32) -> Option<u32> {
    if h.session.card.block_addressed() {
        Some(start)
    } else if start * 512 <= u32::MAX {
        Some((start * 512) as u32)
    } else {
        None
    }
}

/// Whether a request names whole blocks that lie on the card.
pub open spec fn in_range(h: EMmcHost, start: u32, blocks: u32) -> bool {
    &&& 1 <= blocks <= MAX_BLOCKS
    &&& start + blocks <= h.session.card.capacity_blocks
    &&& block_address(h, start) is Some
}

/// Whether a transfer of `blocks` blocks from block `start` on with a
/// buffer of `len` bytes may go ahead.
pub open spec fn allowed(h: EMmcHost, start: u32, blocks: u32, len: nat) -> bool {
    &&& can_transfer(h)
    &&& in_range(h, start, blocks)
    &&& len == blocks * 512
}

/// The data command of a transfer.
pub open spec fn block_command(dir: Direction, blocks: u32, address: u32) -> Command {
    Command {
        opcode: if dir == Direction::Read {
            if blocks > 1 { 18u8 } else { 17u8 }
        } else {
            if blocks > 1 { 25u8 } else { 24u8 }
        },
        argument: address,
        response: ResponseType::R1,
        data: true,
        app: false,
    }
}

/// The command that asks the card at `rca` for its status.
pub open spec fn status_command(rca: u16) -> Command {
    Command {
        opcode: 13,
        argument: (rca as u32) << 16,
        response: ResponseType::R1,
        data: false,
        app: false,
    }
}

/// What a write returns once the card has been asked for its status.
pub open spec fn confirmation(status: Result<Response, SdError>) -> Result<(), SdError> {
    match status {
        Ok(_) => Ok(()),
        Err(e) => Err(e),
    }
}

/// `r` is what the status check after a write returns, with the record of
/// the bus before and after.
pub open spec fn confirmed(h: EMmcHost, t0: Seq<Access>, t1: Seq<Access>, r: Result<(), SdError>) -> bool {
    exists|status: Result<Response, SdError>| #[trigger]
        commanded(h, status_command(h.session.card.rca), t0, t1, status) && r == confirmation(
            status,
        )
}

/// What a read by programmed I/O returns, with the buffer and the record of
/// the bus before and after: on success the buffer holds the bytes of the
/// data words in the order read; on failure it is unchanged.
pub open spec fn was_read(
    cmd: Command,
    blocks: u32,
    before: Seq<u8>,
    after: Seq<u8>,
    t0: Seq<Access>,
    t1: Seq<Access>,
    r: Result<(), SdError>,
) -> bool {
    exists|bytes: Result<Seq<u8>, SdError>| #[trigger]
        read_by_pio(cmd, blocks, WORDS_PER_BLOCK, t0, t1, bytes) && match bytes {
            Ok(b) => r is Ok && after == b,
            Err(e) => r == Err::<(), SdError>(e) && after == before,
        }
}

/// What a write by programmed I/O returns, with the record of the bus
/// before and after: the words handed to the card are the bytes packed in
/// order, and a write that went through is followed by a check of the
/// card's status.
pub open spec fn was_written(
    h: EMmcHost,
    cmd: Command,
    blocks: u32,
    bytes: Seq<u8>,
    t0: Seq<Access>,
    t1: Seq<Access>,
    r: Result<(), SdError>,
) -> bool {
    exists|w: Result<(), SdError>, mid: Seq<Access>| #[trigger]
        written_by_pio(cmd, blocks, WORDS_PER_BLOCK, pack(bytes), t0, mid, w) && match w {
            Err(e) => r == Err::<(), SdError>(e) && t1 == mid,
            Ok(_) => confirmed(h, mid, t1, r),
        }
}

/// What a transfer by descriptor chain returns, with the record of the bus
/// before and after; a write that went through is followed by a check of
/// the card's status.
pub open spec fn was_moved(
    h: EMmcHost,
    cmd: Command,
    dir: Direction,
    blocks: u32,
    table: u64,
    control: u32,
    t0: Seq<Access>,
    t1: Seq<Access>,
    r: Result<(), SdError>,
) -> bool {
    exists|m: Result<(), SdError>, mid: Seq<Access>| #[trigger]
        moved_by_dma(cmd, dir, blocks, table, control, t0, mid, m) && match m {
            Err(e) => r == Err::<(), SdError>(e) && t1 == mid,
            Ok(_) => if dir == Direction::Write {
                confirmed(h, mid, t1, r)
            } else {
                r is Ok && t1 == mid
            },
        }
}

/// What reading blocks returns on a host, with the buffer and the record
/// of the bus before and after.  A request that may not go ahead is
/// refused with `InvalidArgument`; buffer and bus are left alone then.
pub open spec fn blocks_read(
    h: EMmcHost,
    start: u32,
    blocks: u32,
    before: Seq<u8>,
    after: Seq<u8>,
    t0: Seq<Access>,
    t1: Seq<Access>,
    r: Result<(), SdError>,
) -> bool {
    if !allowed(h, start, blocks, before.len()) {
        r == Err::<(), SdError>(SdError::InvalidArgument) && after == before && t1 == t0
    } else {
        was_read(
            block_command(Direction::Read, blocks, block_address(h, start)->0),
            blocks,
            before,
            after,
            t0,
            t1,
            r,
        )
    }
}

/// What writing blocks returns on a host, with the record of the bus
/// before and after.  A request that may not go ahead is refused with
/// `InvalidArgument`; the bus is left alone then.
pub open spec fn blocks_written(
    h: EMmcHost,
    start: u32,
    blocks: u32,
    bytes: Seq<u8>,
    t0: Seq<Access>,
    t1: Seq<Access>,
    r: Result<(), SdError>,
) -> bool {
    if !allowed(h, start, blocks, bytes.len()) {
        r == Err::<(), SdError>(SdError::InvalidArgument) && t1 == t0
    } else {
        was_written(
            h,
            block_command(Direction::Write, blocks, block_address(h, start)->0),
            blocks,
            bytes,
            t0,
            t1,
            r,
        )
    }
}

/// What a transfer by descriptor chain returns on a host, with the record
/// of the bus before and after.  A host that is not set to descriptor
/// transfers and a request that may not go ahead are refused with
/// `InvalidArgument`, a chain that the controller cannot walk for the
/// blocks with `AdmaError`; the bus is left alone then.
pub open spec fn blocks_moved(
    h: EMmcHost,
    dir: Direction,
    start: u32,
    blocks: u32,
    chain: Seq<TransferDescriptor>,
    table: u64,
    t0: Seq<Access>,
    t1: Seq<Access>,
    r: Result<(), SdError>,
) -> bool {
    if !(h.dma && can_transfer(h) && in_range(h, start, blocks)) {
        r == Err::<(), SdError>(SdError::InvalidArgument) && t1 == t0
    } else if !sound(chain, blocks * 512) {
        r == Err::<(), SdError>(SdError::AdmaError) && t1 == t0
    } else {
        was_moved(
            h,
            block_command(dir, blocks, block_address(h, start)->0),
            dir,
            blocks,
            table,
            control1_word(h.session.width, h.session.timing, true),
            t0,
            t1,
            r,
        )
    }
}

/// Whether a chain is one the controller can walk for `len` bytes: it has
/// an entry, and from the address of its first entry on it describes
/// exactly `len` bytes, piece after piece, within the limits of the
/// controller.
pub open spec fn sound(chain: Seq<TransferDescriptor>, len: int) -> bool {
    chain.len() > 0 && covers(chain, chain[0].address as int, len)
}

/// Checks a chain against the limits of the controller and the length of
/// the transfer.
pub fn check_chain(chain: &Vec<TransferDescriptor>, len: u64) -> (ok: bool)
    ensures
        ok == sound(chain@, len as int),
{
    if chain.len() == 0 {
        return false;
    }
    let ghost first = chain@[0].address as int;
    let mut cur: u128 = chain[0].address as u128;
    let mut rem: u64 = len;
    let mut i: usize = 0;
    assert(chain@.subrange(0, chain@.len() as int) =~= chain@);
    while i < chain.len()
        invariant
            i <= chain.len(),
            cur <= u64::MAX as u128 + i * 0x1_0000,
            chain@.len() > 0,
            first == chain@[0].address as int,
            covers(chain@, first, len as int) == covers(
                chain@.subrange(i as int, chain@.len() as int),
                cur as int,
                rem as int,
            ),
        decreases chain.len() - i,
    {
        let d = chain[i];
        let ghost here = chain@.subrange(i as int, chain@.len() as int);
        assert(here[0] == d);
        assert(here.drop_first() =~= chain@.subrange(i as int + 1, chain@.len() as int));
        let length: u128 = d.length as u128;
        if !d.valid || d.address as u128 != cur || d.length == 0 || d.length as u64
            > MAX_DESCRIPTOR_LEN || d.length as u64 > rem {
            return false;
        }
        if (d.address / DMA_BOUNDARY) as u128 != (d.address as u128 + length - 1) / (DMA_BOUNDARY as u128) {
            return false;
        }
        if d.end != (d.length as u64 == rem) {
            return false;
        }
        cur = cur + length;
        rem = rem - d.length as u64;
        i += 1;
    }
    assert(chain@.subrange(i as int, chain@.len() as int) =~= Seq::<TransferDescriptor>::empty());
    rem == 0
}

/// The chain that is built for a buffer is one the controller can walk.
pub proof fn lemma_built_chain_is_sound(addr: u64, len: u64)
    requires
        len > 0,
        addr + len <= u64::MAX,
    ensures
        sound(crate::dma::chain_from(addr as int, len as int), len as int),
{
    crate::dma::lemma_chain_covers(addr as int, len as int);
}

impl EMmcHost {
    /// Whether the host may move data.
    pub fn ready_for_data(&self) -> (b: bool)
        ensures
            b == can_transfer(*self),
    {
        self.session.is_ready() && self.clock_hz != 0 && (!mode_needs_tuning(self.session.timing)
            || self.tuned)
    }

    /// The address the card takes for `blocks` blocks from block `start`
    /// on, if they lie on the card.
    pub fn address_for(&self, start: u32, blocks: u32) -> (a: Option<u32>)
        ensures
            match a {
                Some(address) => in_range(*self, start, blocks) && block_address(*self, start)
                    == Some(address),
                None => !in_range(*self, start, blocks),
            },
    {
        if blocks == 0 || blocks > MAX_BLOCKS {
            return None;
        }
        if start as u64 + blocks as u64 > self.session.card.capacity_blocks {
            return None;
        }
        if self.session.card.is_block_addressed() {
            Some(start)
        } else if start as u64 * 512 <= u32::MAX as u64 {
            Some(start * 512)
        } else {
            None
        }
    }

    /// Reads `blocks` blocks from block `start` on into `buffer`, which
    /// must be exactly that long.  A request outside the transfer state, of
    /// no blocks or too many, beyond the card, or with a buffer that is not
    /// `blocks` blocks long is refused with `InvalidArgument` before
    /// anything touches the bus or the buffer.
    pub fn read_blocks<B: Bus, K: Kernel>(
        &self,
        bus: &mut Traced<B>,
        start: u32,
        blocks: u32,
        buffer: &mut Vec<u8>,
    ) -> (r: Result<(), SdError>)
        ensures
            blocks_read(
                *self,
                start,
                blocks,
                old(buffer)@,
                final(buffer)@,
                old(bus).seen(),
                final(bus).seen(),
                r,
            ),
            !allowed(*self, start, blocks, old(buffer)@.len()) ==> *final(bus) == *old(bus),
    {
        if !self.ready_for_data() {
            return Err(SdError::InvalidArgument);
        }
        let address = match self.address_for(start, blocks) {
            Some(a) => a,
            None => {
                return Err(SdError::InvalidArgument);
            },
        };
        if buffer.len() as u64 != blocks as u64 * 512 {
            return Err(SdError::InvalidArgument);
        }
        let cmd = Command::with_data(if blocks > 1 { 18 } else { 17 }, address, ResponseType::R1);
        let bytes = pio_read::<B, K>(bus, &cmd, blocks, WORDS_PER_BLOCK);
        assert(read_by_pio(
            cmd,
            blocks,
            WORDS_PER_BLOCK,
            old(bus).seen(),
            bus.seen(),
            bytes_view(bytes),
        ));
        match bytes {
            Ok(bytes) => {
                *buffer = bytes;
                Ok(())
            },
            Err(e) => Err(e),
        }
    }

    /// Writes `buffer`, which must be exactly `blocks` blocks long, to the
    /// card from block `start` on, and then asks the card for its status.
    /// A request outside the transfer state, of no blocks or too many,
    /// beyond the card, or with a buffer that is not `blocks` blocks long
    /// is refused with `InvalidArgument` before anything touches the bus.
    /// A card that reports a fault gives a card error with its status.
    pub fn write_blocks<B: Bus, K: Kernel>(
        &self,
        bus: &mut Traced<B>,
        start: u32,
        blocks: u32,
        buffer: &Vec<u8>,
    ) -> (r: Result<(), SdError>)
        ensures
            blocks_written(*self, start, blocks, buffer@, old(bus).seen(), final(bus).seen(), r),
            !allowed(*self, start, blocks, buffer@.len()) ==> *final(bus) == *old(bus),
    {
        if !self.ready_for_data() {
            return Err(SdError::InvalidArgument);
        }
        let address = match self.address_for(start, blocks) {
            Some(a) => a,
            None => {
                return Err(SdError::InvalidArgument);
            },
        };
        if buffer.len() as u64 != blocks as u64 * 512 {
            return Err(SdError::InvalidArgument);
        }
        let cmd = Command::with_data(if blocks > 1 { 25 } else { 24 }, address, ResponseType::R1);
        let w = pio_write::<B, K>(bus, &cmd, blocks, WORDS_PER_BLOCK, buffer);
        let ghost mid = bus.seen();
        assert(written_by_pio(
            cmd,
            blocks,
            WORDS_PER_BLOCK,
            pack(buffer@),
            old(bus).seen(),
            mid,
            w,
        ));
        match w {
            Ok(_) => self.confirm::<B, K>(bus),
            Err(e) => Err(e),
        }
    }

    /// Asks the card for its status after a write.
    fn confirm<B: Bus, K: Kernel>(&self, bus: &mut Traced<B>) -> (r: Result<(), SdError>)
        ensures
            confirmed(*self, old(bus).seen(), final(bus).seen(), r),
    {
        let rca = self.session.card.rca;
        let cmd = Command::new(13, (rca as u32) << 16, ResponseType::R1);
        let status = self.execute::<B, K>(bus, &cmd);
        assert(commanded(*self, status_command(rca), old(bus).seen(), bus.seen(), status));
        match status {
            Ok(_) => Ok(()),
            Err(e) => Err(e),
        }
    }

    /// Moves `blocks` blocks between the card, from block `start` on, and
    /// `buffer`, which must be exactly that long, in the given direction.
    /// The transfer does not return before all the bytes have moved or an
    /// error is known.
    pub fn transfer<B: Bus, K: Kernel>(
        &self,
        bus: &mut Traced<B>,
        direction: Direction,
        start: u32,
        blocks: u32,
        buffer: &mut Vec<u8>,
    ) -> (r: Result<(), SdError>)
        ensures
            direction == Direction::Read ==> blocks_read(
                *self,
                start,
                blocks,
                old(buffer)@,
                final(buffer)@,
                old(bus).seen(),
                final(bus).seen(),
                r,
            ),
            direction == Direction::Write ==> final(buffer)@ == old(buffer)@ && blocks_written(
                *self,
                start,
                blocks,
                old(buffer)@,
                old(bus).seen(),
                final(bus).seen(),
                r,
            ),
            !allowed(*self, start, blocks, old(buffer)@.len()) ==> r == Err::<(), SdError>(
                SdError::InvalidArgument,
            ) && *final(bus) == *old(bus) && final(buffer)@ == old(buffer)@,
    {
        match direction {
            Direction::Read => self.read_blocks::<B, K>(bus, start, blocks, buffer),
            Direction::Write => self.write_blocks::<B, K>(bus, start, blocks, buffer),
        }
    }

    /// Moves `blocks` blocks between the card, from block `start` on, and
    /// the memory that `chain` describes, by descriptor transfer.  The
    /// caller has laid the encoded chain down at `table`.  A host that is
    /// not set to descriptor transfers, a request outside the transfer
    /// state, of no blocks or too many, or beyond the card is refused with
    /// `InvalidArgument`; a chain that does not describe exactly `blocks`
    /// blocks within the limits of the controller, with `AdmaError`; both
    /// before anything touches the bus.
    pub fn transfer_dma<B: Bus, K: Kernel>(
        &self,
        bus: &mut Traced<B>,
        direction: Direction,
        start: u32,
        blocks: u32,
        chain: &Vec<TransferDescriptor>,
        table: u64,
    ) -> (r: Result<(), SdError>)
        ensures
            blocks_moved(
                *self,
                direction,
                start,
                blocks,
                chain@,
                table,
                old(bus).seen(),
                final(bus).seen(),
                r,
            ),
            !(self.dma && can_transfer(*self) && in_range(*self, start, blocks) && sound(
                chain@,
                blocks * 512,
            )) ==> *final(bus) == *old(bus),
    {
        if !self.dma || !self.ready_for_data() {
            return Err(SdError::InvalidArgument);
        }
        let address = match self.address_for(start, blocks) {
            Some(a) => a,
            None => {
                return Err(SdError::InvalidArgument);
            },
        };
        if !check_chain(chain, blocks as u64 * 512) {
            return Err(SdError::AdmaError);
        }
        let opcode: u8 = match direction {
            Direction::Read => if blocks > 1 { 18 } else { 17 },
            Direction::Write => if blocks > 1 { 25 } else { 24 },
        };
        let cmd = Command::with_data(opcode, address, ResponseType::R1);
        let control = encode_control1(self.session.width, self.session.timing, true);
        let m = dma_transfer::<B, K>(bus, &cmd, direction, blocks, table, control);
        let ghost mid = bus.seen();
        assert(moved_by_dma(cmd, direction, blocks, table, control, old(bus).seen(), mid, m));
        match m {
            Ok(_) => match direction {
                Direction::Write => self.confirm::<B, K>(bus),
                Direction::Read => Ok(()),
            },
            Err(e) => Err(e),
        }
    }
}

} // verus!
