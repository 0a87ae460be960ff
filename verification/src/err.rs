//! The error taxonomy shared by every layer of the driver.

use crate::hex::{push_upper_hex, upper_hex};
use vstd::prelude::*;
use vstd::string::*;

verus! {

/// Every way an operation of this driver can fail.  The set is flat and
/// closed; only [`SdError::CardError`] carries data: the raw card status word
/// and a fixed description of the fault it reports.
#[derive(Debug, Clone, Copy, PartialEq, Eq)]
pub enum SdError {
    /// Command timeout
    Timeout,
    /// Command CRC error
    Crc,
    /// Command end bit error
    EndBit,
    /// Command index error
    Index,
    /// Data timeout
    DataTimeout,
    /// Data CRC error
    DataCrc,
    /// Data end bit error
    DataEndBit,
    /// Bus power error
    BusPower,
    /// Auto CMD12 error
    Acmd12Error,
    /// ADMA error
    AdmaError,
    /// Invalid response received
    InvalidResponse,
    /// No card detected
    NoCard,
    /// Unsupported card type
    UnsupportedCard,
    /// General I/O error
    IoError,
    /// Command execution error
    CommandError,
    /// Data transfer error
    TransferError,
    /// Invalid response type for command
    InvalidResponseType,
    /// Current limit exceeded
    CurrentLimit,
    /// General data error
    DataError,
    /// Tuning procedure failed
    TuningFailed,
    /// Voltage switch failed
    VoltageSwitchFailed,
    /// Bad message format
    BadMessage,
    /// Invalid argument provided
    InvalidArgument,
    /// Buffer overflow occurred
    BufferOverflow,
    /// Memory allocation or access error
    MemoryError,
    /// Bus width configuration error
    BusWidth,
    /// Card-specific error with status and description
    CardError(u32, &'static str),
}

impl SdError {
    /// The text shown for this error.
    pub open spec fn message_text(self) -> Seq<char> {
        match self {
            SdError::Timeout => "Command timeout error"@,
            SdError::Crc => "Command CRC error"@,
            SdError::EndBit => "Command end bit error"@,
            SdError::Index => "Command index error"@,
            SdError::DataTimeout => "Data timeout error"@,
            SdError::DataCrc => "Data CRC error"@,
            SdError::DataEndBit => "Data end bit error"@,
            SdError::BusPower => "Bus power error"@,
            SdError::Acmd12Error => "ACMD12 error"@,
            SdError::AdmaError => "ADMA error"@,
            SdError::InvalidResponse => "Invalid response"@,
            SdError::NoCard => "No card detected"@,
            SdError::UnsupportedCard => "Unsupported card"@,
            SdError::IoError => "I/O error"@,
            SdError::CommandError => "Command error"@,
            SdError::TransferError => "Transfer error"@,
            SdError::InvalidResponseType => "Invalid response type"@,
            SdError::CurrentLimit => "Current limit error"@,
            SdError::DataError => "Data error"@,
            SdError::TuningFailed => "Tuning failed"@,
            SdError::VoltageSwitchFailed => "Voltage switch failed"@,
            SdError::BadMessage => "Bad message"@,
            SdError::InvalidArgument => "Invalid argument"@,
            SdError::BufferOverflow => "Buffer overflow"@,
            SdError::MemoryError => "Memory error"@,
            SdError::BusWidth => "Bus width error"@,
            SdError::CardError(status, desc) => "Card error: 0x"@ + upper_hex(status as nat) + " ("@
                + desc@ + ")"@,
        }
    }

    /// Renders the error for display: a fixed phrase per variant; a card
    /// error shows its status word in upper-case hexadecimal followed by its
    /// description in parentheses.
    pub fn message(&self) -> (s: String)
        ensures
            s@ == self.message_text(),
    {
        match self {
            SdError::Timeout => String::from_str("Command timeout error"),
            SdError::Crc => String::from_str("Command CRC error"),
            SdError::EndBit => String::from_str("Command end bit error"),
            SdError::Index => String::from_str("Command index error"),
            SdError::DataTimeout => String::from_str("Data timeout error"),
            SdError::DataCrc => String::from_str("Data CRC error"),
            SdError::DataEndBit => String::from_str("Data end bit error"),
            SdError::BusPower => String::from_str("Bus power error"),
            SdError::Acmd12Error => String::from_str("ACMD12 error"),
            SdError::AdmaError => String::from_str("ADMA error"),
            SdError::InvalidResponse => String::from_str("Invalid response"),
            SdError::NoCard => String::from_str("No card detected"),
            SdError::UnsupportedCard => String::from_str("Unsupported card"),
            SdError::IoError => String::from_str("I/O error"),
            SdError::CommandError => String::from_str("Command error"),
            SdError::TransferError => String::from_str("Transfer error"),
            SdError::InvalidResponseType => String::from_str("Invalid response type"),
            SdError::CurrentLimit => String::from_str("Current limit error"),
            SdError::DataError => String::from_str("Data error"),
            SdError::TuningFailed => String::from_str("Tuning failed"),
            SdError::VoltageSwitchFailed => String::from_str("Voltage switch failed"),
            SdError::BadMessage => String::from_str("Bad message"),
            SdError::InvalidArgument => String::from_str("Invalid argument"),
            SdError::BufferOverflow => String::from_str("Buffer overflow"),
            SdError::MemoryError => String::from_str("Memory error"),
            SdError::BusWidth => String::from_str("Bus width error"),
            SdError::CardError(status, desc) => {
                let mut s = String::from_str("Card error: 0x");
                push_upper_hex(&mut s, *status as u64);
                s.append(" (");
                s.append(desc);
                s.append(")");
                s
            },
        }
    }
}

} // verus!
