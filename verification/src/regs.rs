//! The controller as the engine sees it: named registers, the bits the
//! engine tests or sets in them, the two capabilities a platform supplies,
//! register access and a microsecond delay, and the record of what the
//! engine has done with them.

use vstd::prelude::*;

verus! {

/// A controller register, by role.  Where each one lives in the register
/// block, and how wide the access is, is the platform's business.
#[derive(Clone, Copy, Debug, PartialEq, Eq, Structural)]
pub enum Reg {
    /// Command argument.
    Argument,
    /// Transfer mode in the low half, command in the high half; writing it
    /// starts the command.
    Command,
    /// Response bits 31..0.
    Response0,
    /// Response bits 63..32.
    Response1,
    /// Response bits 95..64.
    Response2,
    /// Response bits 127..96.
    Response3,
    /// The buffer data window of programmed I/O.
    BufferData,
    /// Present state of the command and data lines.
    PresentState,
    /// Host control: bus width, DMA selection, high-speed enable.
    HostControl1,
    /// Bus power and voltage selection.
    PowerControl,
    /// Clock divider and gates.
    ClockControl,
    /// Data timeout counter.
    TimeoutControl,
    /// Software reset of the command and data circuits.
    SoftwareReset,
    /// Normal interrupt status in the low half, error interrupt status in
    /// the high half; writing a one clears the bit.
    IntStatus,
    /// Interrupt status enable, laid out like `IntStatus`.
    IntEnable,
    /// Host control 2: signaling mode, 1.8 V enable, tuning bits.
    HostControl2,
    /// Block size in bytes.
    BlockSize,
    /// Block count of the current transfer.
    BlockCount,
    /// Low word of the descriptor table address.
    AdmaAddressLow,
    /// High word of the descriptor table address.
    AdmaAddressHigh,
}

/// One thing the engine asks of the platform.
#[derive(Clone, Copy, Debug, PartialEq, Eq)]
pub enum BusOp {
    /// Read the register; the value is the input of the next step.
    Read { reg: Reg },
    /// Write the value to the register.
    Write { reg: Reg, value: u32 },
    /// Let at least this many microseconds pass.
    Delay { us: u64 },
    /// Nothing more: the script has ended.
    Done,
}

/// Typed access to the register block of one controller.
pub trait Bus {
    /// Reads a register.
    fn read(&mut self, reg: Reg) -> u32;

    /// Writes a register.
    fn write(&mut self, reg: Reg, value: u32);
}

/// The delay a platform supplies.
pub trait Kernel {
    /// Returns after at least `us` microseconds.
    fn sleep(us: u64);
}

/// One thing that has happened on a bus: a read with the value it gave, a
/// write, or a delay.
#[derive(Clone, Copy, Debug, PartialEq, Eq)]
pub enum Access {
    Read { reg: Reg, value: u32 },
    Write { reg: Reg, value: u32 },
    Delay { us: u64 },
}

/// A bus together with the record of everything the engine has done on it.
/// The record exists for the proofs only; it takes no room and no time at
/// run time.  Every operation of the engine goes through this type, so what
/// the record holds is what the hardware has seen from the engine, in
/// order.
pub struct Traced<B: Bus> {
    bus: B,
    seen: Ghost<Seq<Access>>,
}

impl<B: Bus> Traced<B> {
    /// Everything done on the bus through this value, oldest first.
    pub closed spec fn seen(&self) -> Seq<Access> {
        self.seen@
    }

    /// The bus behind the record.
    pub closed spec fn inner(&self) -> B {
        self.bus
    }

    /// A bus on which nothing has been done yet.
    pub fn new(bus: B) -> (t: Traced<B>)
        ensures
            t.seen() == Seq::<Access>::empty(),
            t.inner() == bus,
    {
        Traced { bus, seen: Ghost(Seq::empty()) }
    }

    /// Reads a register and records the read with its value.
    pub fn read(&mut self, reg: Reg) -> (value: u32)
        ensures
            final(self).seen() == old(self).seen().push(Access::Read { reg, value }),
    {
        let value = self.bus.read(reg);
        proof {
            self.seen@ = self.seen@.push(Access::Read { reg, value });
        }
        value
    }

    /// Writes a register and records the write.
    pub fn write(&mut self, reg: Reg, value: u32)
        ensures
            final(self).seen() == old(self).seen().push(Access::Write { reg, value }),
    {
        self.bus.write(reg, value);
        proof {
            self.seen@ = self.seen@.push(Access::Write { reg, value });
        }
    }

    /// Lets `us` microseconds pass and records the delay.
    pub fn sleep<K: Kernel>(&mut self, us: u64)
        ensures
            final(self).seen() == old(self).seen().push(Access::Delay { us }),
    {
        K::sleep(us);
        proof {
            self.seen@ = self.seen@.push(Access::Delay { us });
        }
    }

    /// The bus itself.
    pub fn bus(&self) -> (bus: &B)
        ensures
            *bus == self.inner(),
    {
        &self.bus
    }

    /// The bus itself, to be changed.  What is done on the bus this way is
    /// not done by the engine and leaves the record as it is.
    pub fn bus_mut(&mut self) -> (bus: &mut B)
        ensures
            *bus == old(self).inner(),
            final(self).inner() == *final(bus),
            final(self).seen() == old(self).seen(),
    {
        &mut self.bus
    }

    /// Gives the bus back.
    pub fn into_bus(self) -> (bus: B)
        ensures
            bus == self.inner(),
    {
        self.bus
    }
}

// Interrupt status: normal half.
pub const INT_CMD_COMPLETE: u32 = 0x0000_0001;
pub const INT_TRANSFER_COMPLETE: u32 = 0x0000_0002;
pub const INT_DMA: u32 = 0x0000_0008;
pub const INT_BUFFER_WRITE_READY: u32 = 0x0000_0010;
pub const INT_BUFFER_READ_READY: u32 = 0x0000_0020;
pub const INT_ERROR: u32 = 0x0000_8000;

// Interrupt status: error half.
pub const INT_CMD_TIMEOUT: u32 = 0x0001_0000;
pub const INT_CMD_CRC: u32 = 0x0002_0000;
pub const INT_CMD_END_BIT: u32 = 0x0004_0000;
pub const INT_CMD_INDEX: u32 = 0x0008_0000;
pub const INT_DATA_TIMEOUT: u32 = 0x0010_0000;
pub const INT_DATA_CRC: u32 = 0x0020_0000;
pub const INT_DATA_END_BIT: u32 = 0x0040_0000;
pub const INT_BUS_POWER: u32 = 0x0080_0000;
pub const INT_AUTO_CMD12: u32 = 0x0100_0000;
pub const INT_ADMA: u32 = 0x0200_0000;
pub const INT_TUNING: u32 = 0x0400_0000;

/// Every bit of the interrupt status that reports a fault.
pub const INT_FAULTS: u32 = 0xFFFF_8000;
/// Every bit of the interrupt status.
pub const INT_ALL: u32 = 0xFFFF_FFFF;

// Present state.
pub const STATE_CMD_INHIBIT: u32 = 0x0000_0001;
pub const STATE_DAT_INHIBIT: u32 = 0x0000_0002;
pub const STATE_CARD_INSERTED: u32 = 0x0001_0000;
pub const STATE_DAT0_LEVEL: u32 = 0x0010_0000;
pub const STATE_DAT_LEVELS: u32 = 0x00F0_0000;

// Software reset.
pub const RESET_ALL: u32 = 0x01;
pub const RESET_CMD: u32 = 0x02;
pub const RESET_DATA: u32 = 0x04;
pub const RESET_LINES: u32 = 0x06;

// Clock control.
pub const CLOCK_INTERNAL_ENABLE: u32 = 0x0001;
pub const CLOCK_INTERNAL_STABLE: u32 = 0x0002;
pub const CLOCK_CARD_ENABLE: u32 = 0x0004;

// Power control.
pub const POWER_ON: u32 = 0x01;
pub const POWER_330: u32 = 0x0E;
pub const POWER_180: u32 = 0x0A;

// Host control 1.
pub const CTRL_4BIT: u32 = 0x02;
pub const CTRL_HIGH_SPEED: u32 = 0x04;
pub const CTRL_ADMA2: u32 = 0x10;
pub const CTRL_8BIT: u32 = 0x20;

// Host control 2.
pub const CTRL2_MODE_MASK: u32 = 0x0007;
pub const CTRL2_1V8: u32 = 0x0008;
pub const CTRL2_EXECUTE_TUNING: u32 = 0x0040;
pub const CTRL2_SAMPLING_CLOCK: u32 = 0x0080;

// Transfer mode, the low half of the command register.
pub const MODE_DMA: u32 = 0x0001;
pub const MODE_BLOCK_COUNT: u32 = 0x0002;
pub const MODE_AUTO_CMD12: u32 = 0x0004;
pub const MODE_READ: u32 = 0x0010;
pub const MODE_MULTI_BLOCK: u32 = 0x0020;

// Command flags, in the high half of the command register.
pub const CMD_RESP_NONE: u32 = 0x0000_0000;
pub const CMD_RESP_LONG: u32 = 0x0001_0000;
pub const CMD_RESP_SHORT: u32 = 0x0002_0000;
pub const CMD_RESP_SHORT_BUSY: u32 = 0x0003_0000;
pub const CMD_CHECK_CRC: u32 = 0x0008_0000;
pub const CMD_CHECK_INDEX: u32 = 0x0010_0000;
pub const CMD_DATA: u32 = 0x0020_0000;

} // verus!
