//! The error classifier: from raw status bits to one error of the taxonomy.
//!
//! When several bits are set at once the classifier still names exactly one
//! error.  Power faults come first, then faults of the command line, of the
//! data line and of the automatic stop command, then faults of the transfer
//! layer.  Faults that the card itself reports in its status word come last:
//! they are only seen once a command has made the round trip.

use crate::err::SdError;
use crate::regs::{
    INT_ADMA, INT_AUTO_CMD12, INT_BUS_POWER, INT_CMD_CRC, INT_CMD_END_BIT, INT_CMD_INDEX,
    INT_CMD_TIMEOUT, INT_DATA_CRC, INT_DATA_END_BIT, INT_DATA_TIMEOUT, INT_FAULTS, INT_TUNING,
};
use vstd::prelude::*;

verus! {

/// The error that an interrupt status word stands for, if it reports one.
pub open spec fn interrupt_fault(status: u32) -> Option<SdError> {
    if status & INT_BUS_POWER != 0 {
        Some(SdError::BusPower)
    } else if status & INT_CMD_CRC != 0 {
        Some(SdError::Crc)
    } else if status & INT_CMD_END_BIT != 0 {
        Some(SdError::EndBit)
    } else if status & INT_CMD_INDEX != 0 {
        Some(SdError::Index)
    } else if status & INT_CMD_TIMEOUT != 0 {
        Some(SdError::Timeout)
    } else if status & INT_DATA_CRC != 0 {
        Some(SdError::DataCrc)
    } else if status & INT_DATA_END_BIT != 0 {
        Some(SdError::DataEndBit)
    } else if status & INT_DATA_TIMEOUT != 0 {
        Some(SdError::DataTimeout)
    } else if status & INT_AUTO_CMD12 != 0 {
        Some(SdError::Acmd12Error)
    } else if status & INT_ADMA != 0 {
        Some(SdError::AdmaError)
    } else if status & INT_TUNING != 0 {
        Some(SdError::TuningFailed)
    } else if status & INT_FAULTS != 0 {
        Some(SdError::TransferError)
    } else {
        None
    }
}

/// Classifies an interrupt status word.
pub fn classify_interrupt(status: u32) -> (r: Option<SdError>)
    ensures
        r == interrupt_fault(status),
{
    if status & INT_BUS_POWER != 0 {
        Some(SdError::BusPower)
    } else if status & INT_CMD_CRC != 0 {
        Some(SdError::Crc)
    } else if status & INT_CMD_END_BIT != 0 {
        Some(SdError::EndBit)
    } else if status & INT_CMD_INDEX != 0 {
        Some(SdError::Index)
    } else if status & INT_CMD_TIMEOUT != 0 {
        Some(SdError::Timeout)
    } else if status & INT_DATA_CRC != 0 {
        Some(SdError::DataCrc)
    } else if status & INT_DATA_END_BIT != 0 {
        Some(SdError::DataEndBit)
    } else if status & INT_DATA_TIMEOUT != 0 {
        Some(SdError::DataTimeout)
    } else if status & INT_AUTO_CMD12 != 0 {
        Some(SdError::Acmd12Error)
    } else if status & INT_ADMA != 0 {
        Some(SdError::AdmaError)
    } else if status & INT_TUNING != 0 {
        Some(SdError::TuningFailed)
    } else if status & INT_FAULTS != 0 {
        Some(SdError::TransferError)
    } else {
        None
    }
}

/// The error reported for a status word in which a fault bit was seen: the
/// one the classifier names, or the catch-all where it names none.
pub open spec fn fault_of(status: u32) -> SdError {
    match interrupt_fault(status) {
        Some(e) => e,
        None => SdError::IoError,
    }
}

/// Names the error of a status word in which a fault bit was seen.
pub fn classify_fault(status: u32) -> (e: SdError)
    ensures
        e == fault_of(status),
{
    match classify_interrupt(status) {
        Some(e) => e,
        None => SdError::IoError,
    }
}

/// An interrupt status word is classified as a fault exactly when one of
/// its fault bits is set.
pub proof fn lemma_fault_iff_fault_bit(status: u32)
    ensures
        interrupt_fault(status) is Some <==> status & INT_FAULTS != 0,
{
    assert(status & 0xFFFF_8000u32 == 0 ==> status & 0x0080_0000u32 == 0 && status & 0x0002_0000u32
        == 0 && status & 0x0004_0000u32 == 0 && status & 0x0008_0000u32 == 0 && status
        & 0x0001_0000u32 == 0 && status & 0x0020_0000u32 == 0 && status & 0x0040_0000u32 == 0
        && status & 0x0010_0000u32 == 0 && status & 0x0100_0000u32 == 0 && status & 0x0200_0000u32
        == 0 && status & 0x0400_0000u32 == 0) by (bit_vector);
}

/// A power fault is named whatever else the status word holds.
pub proof fn lemma_power_fault_first(status: u32)
    requires
        status & INT_BUS_POWER != 0,
    ensures
        interrupt_fault(status) == Some(SdError::BusPower),
{
}

/// A fault of the command or data line is named before one of the transfer
/// layer.
pub proof fn lemma_line_fault_before_transfer_fault(status: u32)
    requires
        status & INT_BUS_POWER == 0,
        status & (INT_CMD_CRC | INT_CMD_END_BIT | INT_CMD_INDEX | INT_CMD_TIMEOUT | INT_DATA_CRC
            | INT_DATA_END_BIT | INT_DATA_TIMEOUT) != 0,
    ensures
        interrupt_fault(status) is Some,
        interrupt_fault(status) != Some(SdError::AdmaError),
        interrupt_fault(status) != Some(SdError::Acmd12Error),
        interrupt_fault(status) != Some(SdError::TuningFailed),
        interrupt_fault(status) != Some(SdError::TransferError),
{
    assert(status & (0x0002_0000u32 | 0x0004_0000u32 | 0x0008_0000u32 | 0x0001_0000u32
        | 0x0020_0000u32 | 0x0040_0000u32 | 0x0010_0000u32) != 0 ==> status & 0x0002_0000u32 != 0
        || status & 0x0004_0000u32 != 0 || status & 0x0008_0000u32 != 0 || status & 0x0001_0000u32
        != 0 || status & 0x0020_0000u32 != 0 || status & 0x0040_0000u32 != 0 || status
        & 0x0010_0000u32 != 0) by (bit_vector);
}

// Card status bits that report an error.
pub const CARD_ADDRESS_ERROR: u32 = 0x4000_0000;
pub const CARD_BLOCK_LEN_ERROR: u32 = 0x2000_0000;
pub const CARD_ERASE_SEQ_ERROR: u32 = 0x1000_0000;
pub const CARD_ERASE_PARAM: u32 = 0x0800_0000;
pub const CARD_WP_VIOLATION: u32 = 0x0400_0000;
pub const CARD_LOCK_UNLOCK_FAILED: u32 = 0x0100_0000;
pub const CARD_COM_CRC_ERROR: u32 = 0x0080_0000;
pub const CARD_ILLEGAL_COMMAND: u32 = 0x0040_0000;
pub const CARD_ECC_FAILED: u32 = 0x0020_0000;
pub const CARD_CC_ERROR: u32 = 0x0010_0000;
pub const CARD_OUT_OF_RANGE: u32 = 0x0008_0000;
pub const CARD_GENERAL_ERROR: u32 = 0x8000_0000;
/// Every card status bit that reports an error.
pub const CARD_ERRORS: u32 = 0xFDF8_0000;

/// Card status bit set while the card expects an application command.
pub const CARD_APP_CMD: u32 = 0x0000_0020;
/// Card status bit set while the card can take data.
pub const CARD_READY_FOR_DATA: u32 = 0x0000_0100;

/// The description of the first error that a card status word reports, if it
/// reports one.
pub open spec fn card_fault_text(status: u32) -> Option<&'static str> {
    if status & CARD_OUT_OF_RANGE != 0 {
        Some("out of range")
    } else if status & CARD_ADDRESS_ERROR != 0 {
        Some("address error")
    } else if status & CARD_BLOCK_LEN_ERROR != 0 {
        Some("block length error")
    } else if status & CARD_ERASE_SEQ_ERROR != 0 {
        Some("erase sequence error")
    } else if status & CARD_ERASE_PARAM != 0 {
        Some("erase parameter error")
    } else if status & CARD_WP_VIOLATION != 0 {
        Some("write protect violation")
    } else if status & CARD_LOCK_UNLOCK_FAILED != 0 {
        Some("lock or unlock failed")
    } else if status & CARD_COM_CRC_ERROR != 0 {
        Some("command CRC error")
    } else if status & CARD_ILLEGAL_COMMAND != 0 {
        Some("illegal command")
    } else if status & CARD_ECC_FAILED != 0 {
        Some("card ECC failed")
    } else if status & CARD_CC_ERROR != 0 {
        Some("card controller error")
    } else if status & CARD_GENERAL_ERROR != 0 {
        Some("general error")
    } else {
        None
    }
}

/// The error that a card status word stands for: a card error that carries
/// the whole status word and the description of the first fault in it.
pub open spec fn card_fault(status: u32) -> Option<SdError> {
    match card_fault_text(status) {
        Some(text) => Some(SdError::CardError(status, text)),
        None => None,
    }
}

/// Classifies a card status word as received in a response.
pub fn classify_card_status(status: u32) -> (r: Option<SdError>)
    ensures
        r == card_fault(status),
{
    if status & CARD_OUT_OF_RANGE != 0 {
        Some(SdError::CardError(status, "out of range"))
    } else if status & CARD_ADDRESS_ERROR != 0 {
        Some(SdError::CardError(status, "address error"))
    } else if status & CARD_BLOCK_LEN_ERROR != 0 {
        Some(SdError::CardError(status, "block length error"))
    } else if status & CARD_ERASE_SEQ_ERROR != 0 {
        Some(SdError::CardError(status, "erase sequence error"))
    } else if status & CARD_ERASE_PARAM != 0 {
        Some(SdError::CardError(status, "erase parameter error"))
    } else if status & CARD_WP_VIOLATION != 0 {
        Some(SdError::CardError(status, "write protect violation"))
    } else if status & CARD_LOCK_UNLOCK_FAILED != 0 {
        Some(SdError::CardError(status, "lock or unlock failed"))
    } else if status & CARD_COM_CRC_ERROR != 0 {
        Some(SdError::CardError(status, "command CRC error"))
    } else if status & CARD_ILLEGAL_COMMAND != 0 {
        Some(SdError::CardError(status, "illegal command"))
    } else if status & CARD_ECC_FAILED != 0 {
        Some(SdError::CardError(status, "card ECC failed"))
    } else if status & CARD_CC_ERROR != 0 {
        Some(SdError::CardError(status, "card controller error"))
    } else if status & CARD_GENERAL_ERROR != 0 {
        Some(SdError::CardError(status, "general error"))
    } else {
        None
    }
}

/// A card status word is classified as a fault exactly when one of its
/// error bits is set, and the error then echoes the status word.
pub proof fn lemma_card_fault_iff_error_bit(status: u32)
    ensures
        card_fault(status) is Some <==> status & CARD_ERRORS != 0,
        card_fault(status) matches Some(e) ==> (e matches SdError::CardError(s, _) && s == status),
{
    assert(status & 0xFDF8_0000u32 != 0 <==> (status & 0x0008_0000u32 != 0 || status
        & 0x4000_0000u32 != 0 || status & 0x2000_0000u32 != 0 || status & 0x1000_0000u32 != 0
        || status & 0x0800_0000u32 != 0 || status & 0x0400_0000u32 != 0 || status & 0x0100_0000u32
        != 0 || status & 0x0080_0000u32 != 0 || status & 0x0040_0000u32 != 0 || status
        & 0x0020_0000u32 != 0 || status & 0x0010_0000u32 != 0 || status & 0x8000_0000u32 != 0))
        by (bit_vector);
}

/// What comes back to the caller when the controller reports a fault and
/// the card reports one too: the controller's fault, since the card's is
/// ranked last.
pub open spec fn primary_fault(interrupt: u32, card: u32) -> Option<SdError> {
    match interrupt_fault(interrupt) {
        Some(e) => Some(e),
        None => card_fault(card),
    }
}

/// Names the one primary error of a failure seen in both status words.
pub fn classify(interrupt: u32, card: u32) -> (r: Option<SdError>)
    ensures
        r == primary_fault(interrupt, card),
{
    match classify_interrupt(interrupt) {
        Some(e) => Some(e),
        None => classify_card_status(card),
    }
}

} // verus!
