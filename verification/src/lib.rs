//! Host-controller driver logic for SD, SDIO, MMC and eMMC cards behind an
//! SDHCI-family controller.
//!
//! The crate holds the protocol engine: command scripts, block transfers,
//! clock and signaling changes, card bring-up and error classification.
//! Register access and delays are reached through the [`Bus`] and [`Kernel`]
//! traits, so the same engine runs against hardware or a simulated
//! controller.  The engine works on a [`Traced`] bus, which keeps, for the
//! proofs only, the record of every read, write and delay; the contracts of
//! the operations say what the result is for what the bus answered, and what
//! the bus has seen.

pub mod block;
pub mod bringup;
pub mod card;
pub mod classify;
pub mod command;
pub mod dma;
pub mod dump;
pub mod emmc;
pub mod err;
pub mod hex;
pub mod mode;
pub mod regs;
pub mod script;
pub mod session;
pub mod signal;
pub mod transfer;
pub mod tuning;
pub mod words;

pub use crate::err::SdError;
pub use crate::regs::{Access, Bus, BusOp, Kernel, Reg, Traced};

use vstd::prelude::*;

verus! {

/// Logical block size of every data transfer, in bytes.
pub const BLOCK_SIZE: usize = 512;

} // verus!
