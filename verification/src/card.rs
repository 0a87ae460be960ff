//! What the host learns of a card while it identifies it: its kind, its
//! capacity and what it can do, read out of the registers the card sends.

use crate::err::SdError;
use crate::signal::{BusWidth, TimingMode};
use vstd::prelude::*;

verus! {

/// The kind of card.
#[derive(Clone, Copy, Debug, PartialEq, Eq, Structural)]
pub enum CardType {
    /// SD, standard capacity.
    Sd,
    /// SD, high capacity.
    Sdhc,
    /// SD, extended capacity.
    Sdxc,
    /// SDIO.
    Sdio,
    /// MMC, addressed by byte.
    Mmc,
    /// eMMC, addressed by sector.
    Emmc,
}

/// The protocol family a card speaks.
#[derive(Clone, Copy, Debug, PartialEq, Eq, Structural)]
pub enum Family {
    /// Not yet known.
    Unknown,
    Sd,
    Mmc,
}

/// The timing modes beyond the legacy one that a card or a host supports.
#[derive(Clone, Copy, Debug, PartialEq, Eq, Structural)]
pub struct Modes {
    pub high_speed: bool,
    pub sdr50: bool,
    pub sdr104: bool,
    pub hs200: bool,
    pub hs400: bool,
}

impl Modes {
    /// Whether the mode is among the supported; the legacy mode always is.
    pub open spec fn has(self, mode: TimingMode) -> bool {
        match mode {
            TimingMode::Legacy => true,
            TimingMode::HighSpeed => self.high_speed,
            TimingMode::Sdr50 => self.sdr50,
            TimingMode::Sdr104 => self.sdr104,
            TimingMode::Hs200 => self.hs200,
            TimingMode::Hs400 => self.hs400,
        }
    }

    /// Whether the mode is among the supported.
    pub fn supports(&self, mode: TimingMode) -> (b: bool)
        ensures
            b == self.has(mode),
    {
        match mode {
            TimingMode::Legacy => true,
            TimingMode::HighSpeed => self.high_speed,
            TimingMode::Sdr50 => self.sdr50,
            TimingMode::Sdr104 => self.sdr104,
            TimingMode::Hs200 => self.hs200,
            TimingMode::Hs400 => self.hs400,
        }
    }

    /// No mode but the legacy one.
    pub fn legacy_only() -> (m: Modes)
        ensures
            m == (Modes {
                high_speed: false,
                sdr50: false,
                sdr104: false,
                hs200: false,
                hs400: false,
            }),
    {
        Modes { high_speed: false, sdr50: false, sdr104: false, hs200: false, hs400: false }
    }
}

/// What is known of a card.
#[derive(Clone, Copy, Debug, PartialEq, Eq)]
pub struct Card {
    /// The kind of card.
    pub card_type: CardType,
    /// The card identification register.
    pub cid: u128,
    /// Capacity in blocks of 512 bytes.
    pub capacity_blocks: u64,
    /// The timing modes the card supports.
    pub modes: Modes,
    /// The widest bus the card supports.
    pub widest: BusWidth,
    /// The card can signal at 1.8 V.
    pub supports_1v8: bool,
    /// The relative card address.
    pub rca: u16,
    /// The card is selected.
    pub selected: bool,
}

/// A card of which nothing is known yet.
pub open spec fn blank_card() -> Card {
    Card {
        card_type: CardType::Sd,
        cid: 0,
        capacity_blocks: 0,
        modes: Modes { high_speed: false, sdr50: false, sdr104: false, hs200: false, hs400: false },
        widest: BusWidth::One,
        supports_1v8: false,
        rca: 0,
        selected: false,
    }
}

impl Card {
    /// A card of which nothing is known yet.
    pub fn blank() -> (c: Card)
        ensures
            c == blank_card(),
    {
        Card {
            card_type: CardType::Sd,
            cid: 0,
            capacity_blocks: 0,
            modes: Modes::legacy_only(),
            widest: BusWidth::One,
            supports_1v8: false,
            rca: 0,
            selected: false,
        }
    }

    /// Whether the card takes block numbers as addresses; the others take
    /// byte addresses.
    pub open spec fn block_addressed(self) -> bool {
        self.card_type == CardType::Sdhc || self.card_type == CardType::Sdxc || self.card_type
            == CardType::Emmc
    }

    /// Whether the card takes block numbers as addresses.
    pub fn is_block_addressed(&self) -> (b: bool)
        ensures
            b == self.block_addressed(),
    {
        match self.card_type {
            CardType::Sdhc | CardType::Sdxc | CardType::Emmc => true,
            _ => false,
        }
    }
}

// The operating conditions register.
/// The voltage window of the host: 2.7 V to 3.6 V.
pub const OCR_HOST_WINDOW: u32 = 0x00FF_8000;
/// The card has finished its power-up.
pub const OCR_POWERED_UP: u32 = 0x8000_0000;
/// High capacity: offered by the host, confirmed by the card.
pub const OCR_HIGH_CAPACITY: u32 = 0x4000_0000;
/// Switching to 1.8 V: asked by the host, accepted by the card.
pub const OCR_LOW_VOLTAGE: u32 = 0x0100_0000;
/// The most times the operating conditions are asked for.
pub const OCR_ATTEMPTS: u32 = 1_000;
/// Microseconds between two such commands.
pub const OCR_INTERVAL_US: u64 = 1_000;

/// Where the wait for the card's power-up stands.
#[derive(Clone, Copy, Debug, PartialEq, Eq)]
pub enum PowerUp {
    /// The card is ready.
    Ready,
    /// The card is still busy: ask again.
    Retry,
    /// The wait is over without a usable card.
    Fail(SdError),
}

/// Where the wait stands after answer number `attempt`, counted from one,
/// has brought `ocr`.  A card whose voltage window misses the host's is
/// unsupported; a card that reports its power-up done is ready; a card
/// still busy after the last attempt counts as no card.
pub open spec fn power_up_verdict(ocr: u32, attempt: int) -> PowerUp {
    if ocr & OCR_HOST_WINDOW == 0 {
        PowerUp::Fail(SdError::UnsupportedCard)
    } else if ocr & OCR_POWERED_UP != 0 {
        PowerUp::Ready
    } else if attempt >= OCR_ATTEMPTS {
        PowerUp::Fail(SdError::NoCard)
    } else {
        PowerUp::Retry
    }
}

/// Judges an answer to the operating conditions command.
pub fn judge_power_up(ocr: u32, attempt: u32) -> (p: PowerUp)
    ensures
        p == power_up_verdict(ocr, attempt as int),
{
    if ocr & OCR_HOST_WINDOW == 0 {
        PowerUp::Fail(SdError::UnsupportedCard)
    } else if ocr & OCR_POWERED_UP != 0 {
        PowerUp::Ready
    } else if attempt >= OCR_ATTEMPTS {
        PowerUp::Fail(SdError::NoCard)
    } else {
        PowerUp::Retry
    }
}

/// The field of `width` bits that starts at bit `low` of a 128-bit
/// register.
pub open spec fn field(raw: u128, low: u32, width: u32) -> u64 {
    ((raw >> low) & (((1u128 << width) - 1) as u128)) as u64
}

/// Reads a field of at most 32 bits out of a 128-bit register.
pub fn read_field(raw: u128, low: u32, width: u32) -> (v: u64)
    requires
        low < 128,
        1 <= width <= 32,
    ensures
        v == field(raw, low, width),
        v < 0x1_0000_0000,
{
    assert(1u128 << width >= 1 && (raw >> low) & (((1u128 << width) - 1) as u128) < 0x1_0000_0000)
        by (bit_vector)
        requires
            1 <= width <= 32,
    ;
    let mask: u128 = (1u128 << width) - 1;
    let v: u128 = (raw >> low) & mask;
    v as u64
}

/// The capacity in blocks that a card specific data register states.  The
/// second layout of SD cards counts units of 1024 blocks; the first layout,
/// which MMC shares, gives a count, a multiplier and a block length.
pub open spec fn csd_capacity(raw: u128, family: Family) -> u64 {
    if family == Family::Sd && field(raw, 126, 2) == 1 {
        ((field(raw, 48, 22) + 1) * 1024) as u64
    } else {
        (((field(raw, 62, 12) + 1) as u64) << ((field(raw, 47, 3) + 2 + field(raw, 80, 4)) as u64))
            >> 9
    }
}

/// Whether the register names command class 10, which holds the command
/// that switches an SD card to high speed.
pub open spec fn csd_switch_class(raw: u128) -> bool {
    field(raw, 84, 12) & 0x400 != 0
}

/// Whether an MMC register leaves the capacity to the extended register.
pub open spec fn csd_capacity_elsewhere(raw: u128) -> bool {
    field(raw, 62, 12) == 0xFFF
}

/// What the host reads out of the card specific data.
pub struct Csd {
    pub capacity_blocks: u64,
    pub switch_class: bool,
    pub capacity_elsewhere: bool,
}

/// Reads the card specific data.
pub fn parse_csd(raw: u128, family: Family) -> (c: Csd)
    ensures
        c.capacity_blocks == csd_capacity(raw, family),
        c.switch_class == csd_switch_class(raw),
        c.capacity_elsewhere == csd_capacity_elsewhere(raw),
{
    let structure = read_field(raw, 126, 2);
    let classes = read_field(raw, 84, 12);
    let count = read_field(raw, 62, 12);
    let sd = match family {
        Family::Sd => true,
        _ => false,
    };
    let capacity: u64 = if sd && structure == 1 {
        let units = read_field(raw, 48, 22);
        (units + 1) * 1024
    } else {
        let mult = read_field(raw, 47, 3);
        let len = read_field(raw, 80, 4);
        assert(field(raw, 47, 3) < 8 && field(raw, 80, 4) < 16) by {
            assert((raw >> 47u32) & (((1u128 << 3u32) - 1) as u128) < 8) by (bit_vector);
            assert((raw >> 80u32) & (((1u128 << 4u32) - 1) as u128) < 16) by (bit_vector);
        }
        let shift: u64 = mult + 2 + len;
        ((count + 1) << shift) >> 9
    };
    Csd {
        capacity_blocks: capacity,
        switch_class: classes & 0x400 != 0,
        capacity_elsewhere: count == 0xFFF,
    }
}

/// The length of the extended card specific data.
pub const EXT_CSD_LEN: usize = 512;
/// Where the sector count lies in it.
pub const EXT_CSD_SECTORS: usize = 212;
/// Where the device type lies in it.
pub const EXT_CSD_DEVICE_TYPE: usize = 196;

/// What the host reads out of the extended card specific data.
#[derive(Clone, Copy, Debug, PartialEq, Eq)]
pub struct ExtCsd {
    /// The number of sectors.
    pub sectors: u32,
    /// The device type byte.
    pub device_type: u8,
}

/// The sector count and the device type of an extended register.
pub open spec fn ext_csd_of(bytes: Seq<u8>) -> Result<ExtCsd, SdError> {
    if bytes.len() != EXT_CSD_LEN {
        Err(SdError::BadMessage)
    } else {
        Ok(
            ExtCsd {
                sectors: crate::words::word_of(bytes[212], bytes[213], bytes[214], bytes[215]),
                device_type: bytes[196],
            },
        )
    }
}

/// Reads the extended card specific data; a register of the wrong length
/// is a bad message.
pub fn parse_ext_csd(bytes: &Vec<u8>) -> (r: Result<ExtCsd, SdError>)
    ensures
        r == ext_csd_of(bytes@),
{
    if bytes.len() != EXT_CSD_LEN {
        return Err(SdError::BadMessage);
    }
    let b0 = bytes[EXT_CSD_SECTORS];
    let b1 = bytes[EXT_CSD_SECTORS + 1];
    let b2 = bytes[EXT_CSD_SECTORS + 2];
    let b3 = bytes[EXT_CSD_SECTORS + 3];
    Ok(
        ExtCsd {
            sectors: (b0 as u32) | ((b1 as u32) << 8) | ((b2 as u32) << 16) | ((b3 as u32) << 24),
            device_type: bytes[EXT_CSD_DEVICE_TYPE],
        },
    )
}

/// The timing modes that a device type byte names.
pub open spec fn device_modes(device_type: u8) -> Modes {
    Modes {
        high_speed: device_type & 0x02 != 0,
        sdr50: false,
        sdr104: false,
        hs200: device_type & 0x10 != 0,
        hs400: device_type & 0x40 != 0,
    }
}

/// Reads the timing modes out of a device type byte.
pub fn modes_of_device(device_type: u8) -> (m: Modes)
    ensures
        m == device_modes(device_type),
{
    Modes {
        high_speed: device_type & 0x02 != 0,
        sdr50: false,
        sdr104: false,
        hs200: device_type & 0x10 != 0,
        hs400: device_type & 0x40 != 0,
    }
}

} // verus!
