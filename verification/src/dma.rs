//! The descriptor chain of a scatter/gather transfer.
//!
//! A chain is built fresh for each transfer from the address and length of
//! the caller's buffer.  It is a contiguous table indexed by position: each
//! entry is followed by the next, and the last one is marked as the end.
//! The entries cover the buffer exactly, none is longer than the controller
//! allows, and none crosses an address boundary the controller cannot
//! cross.

use crate::err::SdError;
use vstd::prelude::*;

verus! {

/// The most bytes one descriptor can describe.
pub const MAX_DESCRIPTOR_LEN: u64 = 0x1_0000;
/// Descriptors may not cross a multiple of this address.
pub const DMA_BOUNDARY: u64 = 0x0800_0000;

/// One entry of a descriptor chain.
#[derive(Clone, Copy, Debug, PartialEq, Eq)]
pub struct TransferDescriptor {
    /// Address of the bytes.
    pub address: u64,
    /// Number of bytes, from one to `MAX_DESCRIPTOR_LEN`.
    pub length: u32,
    /// The entry is in use.
    pub valid: bool,
    /// The entry is the last of its chain.
    pub end: bool,
    /// The controller raises an interrupt after this entry.
    pub interrupt: bool,
}

/// The length of the first descriptor for `len` bytes at `addr`: as much as
/// a descriptor may hold, cut short at the next boundary.
pub open spec fn chunk_len(addr: int, len: int) -> int {
    let room = DMA_BOUNDARY - addr % (DMA_BOUNDARY as int);
    let most = if room < MAX_DESCRIPTOR_LEN { room } else { MAX_DESCRIPTOR_LEN as int };
    if len < most { len } else { most }
}

/// The chain for `len` bytes at `addr`.
pub open spec fn chain_from(addr: int, len: int) -> Seq<TransferDescriptor>
    decreases len,
{
    if len <= 0 || addr < 0 {
        Seq::empty()
    } else {
        let c = chunk_len(addr, len);
        seq![
            TransferDescriptor {
                address: addr as u64,
                length: c as u32,
                valid: true,
                end: c == len,
                interrupt: false,
            },
        ] + chain_from(addr + c, len - c)
    }
}

/// Whether a chain describes exactly the `len` bytes at `addr`, piece after
/// piece, within the limits of the controller.
pub open spec fn covers(chain: Seq<TransferDescriptor>, addr: int, len: int) -> bool
    decreases chain.len(),
{
    if chain.len() == 0 {
        len == 0
    } else {
        let d = chain[0];
        &&& d.valid
        &&& d.address == addr
        &&& 1 <= d.length <= MAX_DESCRIPTOR_LEN
        &&& d.length <= len
        &&& d.address / DMA_BOUNDARY == (d.address + d.length - 1) / (DMA_BOUNDARY as int)
        &&& d.end == (d.length == len)
        &&& covers(chain.drop_first(), addr + d.length, len - d.length)
    }
}

/// The number of bytes a chain describes.
pub open spec fn total_len(chain: Seq<TransferDescriptor>) -> int
    decreases chain.len(),
{
    if chain.len() == 0 {
        0
    } else {
        chain[0].length + total_len(chain.drop_first())
    }
}

/// The bytes that the controller moves for a chain, when the buffer `buf`
/// lies at address `base`: the pieces the descriptors name, in the order of
/// the chain.
pub open spec fn gather(chain: Seq<TransferDescriptor>, base: int, buf: Seq<u8>) -> Seq<u8>
    decreases chain.len(),
{
    if chain.len() == 0 {
        Seq::empty()
    } else {
        buf.subrange(chain[0].address - base, chain[0].address - base + chain[0].length) + gather(
            chain.drop_first(),
            base,
            buf,
        )
    }
}

proof fn lemma_chunk(addr: int, len: int)
    requires
        addr >= 0,
        len > 0,
    ensures
        1 <= chunk_len(addr, len) <= len,
        chunk_len(addr, len) <= MAX_DESCRIPTOR_LEN,
        addr / (DMA_BOUNDARY as int) == (addr + chunk_len(addr, len) - 1) / (DMA_BOUNDARY as int),
{
    let b = DMA_BOUNDARY as int;
    let c = chunk_len(addr, len);
    let q = addr / b;
    let r = addr % b;
    assert(addr == q * b + r && 0 <= r < b) by (nonlinear_arith)
        requires
            b > 0,
            q == addr / b,
            r == addr % b,
    ;
    assert(c <= b - r);
    assert((q * b + (r + c - 1)) / b == q) by (nonlinear_arith)
        requires
            b > 0,
            0 <= r + c - 1 < b,
    ;
}

/// The chain built for a buffer covers it exactly: the entries follow one
/// another from the buffer's first byte to its last, each within the
/// length limit, none across a boundary, and only the last marked as the
/// end.
pub proof fn lemma_chain_covers(addr: int, len: int)
    requires
        addr >= 0,
        len >= 0,
        addr + len <= u64::MAX,
    ensures
        covers(chain_from(addr, len), addr, len),
        total_len(chain_from(addr, len)) == len,
    decreases len,
{
    if len > 0 {
        lemma_chunk(addr, len);
        let c = chunk_len(addr, len);
        lemma_chain_covers(addr + c, len - c);
        let chain = chain_from(addr, len);
        assert(chain.drop_first() =~= chain_from(addr + c, len - c));
    }
}

proof fn lemma_gather_from(addr: int, off: int, rem: int, buf: Seq<u8>)
    requires
        addr >= 0,
        off >= 0,
        rem >= 0,
        off + rem == buf.len(),
        addr + off + rem <= u64::MAX,
    ensures
        gather(chain_from(addr + off, rem), addr, buf) == buf.subrange(off, buf.len() as int),
    decreases rem,
{
    if rem > 0 {
        lemma_chunk(addr + off, rem);
        let c = chunk_len(addr + off, rem);
        lemma_gather_from(addr, off + c, rem - c, buf);
        let chain = chain_from(addr + off, rem);
        assert(chain.drop_first() =~= chain_from(addr + off + c, rem - c));
        assert(buf.subrange(off, off + c) + buf.subrange(off + c, buf.len() as int)
            =~= buf.subrange(off, buf.len() as int));
    } else {
        assert(buf.subrange(off, buf.len() as int) =~= Seq::<u8>::empty());
    }
}

/// What the controller moves for the chain of a buffer is the buffer, byte
/// for byte.
pub proof fn lemma_gather_is_buffer(addr: int, buf: Seq<u8>)
    requires
        addr >= 0,
        addr + buf.len() <= u64::MAX,
    ensures
        gather(chain_from(addr, buf.len() as int), addr, buf) == buf,
{
    lemma_gather_from(addr, 0, buf.len() as int, buf);
    assert(buf.subrange(0, buf.len() as int) =~= buf);
}

/// Builds the descriptor chain for a buffer of `len` bytes at `addr`.
///
/// A length that is zero or no multiple of the block size is refused with
/// `InvalidArgument`; an address that is not word aligned, with
/// `AdmaError`; a buffer that runs past the end of the address space, with
/// `MemoryError`.
pub fn build_descriptor_chain(addr: u64, len: usize) -> (r: Result<
    Vec<TransferDescriptor>,
    SdError,
>)
    ensures
        len == 0 || len % 512 != 0 ==> r == Err::<Vec<TransferDescriptor>, SdError>(
            SdError::InvalidArgument,
        ),
        len != 0 && len % 512 == 0 && addr % 4 != 0 ==> r == Err::<
            Vec<TransferDescriptor>,
            SdError,
        >(SdError::AdmaError),
        len != 0 && len % 512 == 0 && addr % 4 == 0 && addr + len > u64::MAX ==> r == Err::<
            Vec<TransferDescriptor>,
            SdError,
        >(SdError::MemoryError),
        len != 0 && len % 512 == 0 && addr % 4 == 0 && addr + len <= u64::MAX ==> (r matches Ok(
            chain,
        ) && chain@ == chain_from(addr as int, len as int)),
{
    if len == 0 || len % 512 != 0 {
        return Err(SdError::InvalidArgument);
    }
    if addr % 4 != 0 {
        return Err(SdError::AdmaError);
    }
    let total: u64 = len as u64;
    if total > u64::MAX - addr {
        return Err(SdError::MemoryError);
    }
    let mut chain: Vec<TransferDescriptor> = Vec::new();
    let mut cur: u64 = addr;
    let mut rem: u64 = total;
    while rem > 0
        invariant
            cur + rem == addr + len,
            addr + len <= u64::MAX,
            chain@ + chain_from(cur as int, rem as int) == chain_from(addr as int, len as int),
        decreases rem,
    {
        let room: u64 = DMA_BOUNDARY - cur % DMA_BOUNDARY;
        let most: u64 = if room < MAX_DESCRIPTOR_LEN { room } else { MAX_DESCRIPTOR_LEN };
        let c: u64 = if rem < most { rem } else { most };
        proof {
            lemma_chunk(cur as int, rem as int);
            assert(c == chunk_len(cur as int, rem as int));
        }
        let d = TransferDescriptor {
            address: cur,
            length: c as u32,
            valid: true,
            end: c == rem,
            interrupt: false,
        };
        proof {
            let rest = chain_from(cur + c, rem - c);
            assert(chain_from(cur as int, rem as int) =~= seq![d] + rest);
            assert(chain@.push(d) + rest =~= chain@ + (seq![d] + rest));
        }
        chain.push(d);
        cur = cur + c;
        rem = rem - c;
    }
    assert(chain@ =~= chain@ + chain_from(cur as int, rem as int));
    Ok(chain)
}

// Attribute bits of a descriptor as the controller reads it.
pub const ATTR_VALID: u32 = 0x01;
pub const ATTR_END: u32 = 0x02;
pub const ATTR_INTERRUPT: u32 = 0x04;
pub const ATTR_TRANSFER: u32 = 0x20;

/// The three words of a descriptor in the controller's table: attributes
/// with the length in the high half, then the low and the high word of the
/// address.  The full length of `MAX_DESCRIPTOR_LEN` is written as zero.
pub open spec fn descriptor_words(d: TransferDescriptor) -> (u32, u32, u32) {
    (
        ((d.length & 0xFFFF) << 16) | ATTR_TRANSFER | (if d.valid { ATTR_VALID } else { 0 }) | (if d.end {
            ATTR_END
        } else {
            0
        }) | (if d.interrupt { ATTR_INTERRUPT } else { 0 }),
        (d.address & 0xFFFF_FFFF) as u32,
        (d.address >> 32) as u32,
    )
}

impl TransferDescriptor {
    /// Encodes the descriptor for the controller's table.
    pub fn encode(&self) -> (w: (u32, u32, u32))
        ensures
            w == descriptor_words(*self),
    {
        let attr: u32 = ((self.length & 0xFFFF) << 16) | ATTR_TRANSFER | (if self.valid {
            ATTR_VALID
        } else {
            0
        }) | (if self.end { ATTR_END } else { 0 }) | (if self.interrupt { ATTR_INTERRUPT } else { 0 });
        let address: u64 = self.address;
        let high: u64 = address >> 32;
        assert(high <= 0xFFFF_FFFF) by (bit_vector)
            requires
                high == address >> 32,
        ;
        (attr, (address & 0xFFFF_FFFF) as u32, high as u32)
    }
}

} // verus!
