//! Host-side driver for the STM32 AN3155 UART bootloader protocol.
//!
//! The crate is organized in layers: a pure wire codec (command bytes,
//! complements, XOR checksums, big-endian fields), a session that exchanges
//! framed commands over an abstract byte stream, an erase planner that maps
//! an address range to flash page indices, and an orchestrator that drives a
//! full firmware flash chunk by chunk.

use vstd::prelude::*;

pub mod builder;
pub mod codec;
pub mod error;
pub mod orchestrator;
pub mod planner;
pub mod session;
pub mod stream;

pub use codec::{
    BankErase, BootloaderCommand, EraseCommand, Response, Version, checksum, decode_command,
    decode_response, encode_command, ACK_BYTE, NACK_BYTE,
};
pub use builder::Builder;
pub use orchestrator::{Info, erase, flash, get_info};
pub use planner::pages_for_range;
pub use session::AN3155;
pub use error::Error;
pub use stream::{ByteStream, SimStream};

verus! {

/// Synchronization byte that primes the bootloader's auto-baud detection.
pub const SYNC_BYTE: u8 = 0x7F;

/// Default serial baud rate.
pub const DEFAULT_BAUDRATE: u32 = 57_600;

/// Maximum number of pages a single standard erase command can name.
pub const MAX_ERASE_PAGE_COUNT: usize = 255;

/// Maximum number of bytes a single write-memory command can carry.
pub const MAX_WRITE_BYTES_COUNT: usize = 256;

/// Maximum number of bytes a single read-memory command can request.
pub const MAX_READ_BYTES_COUNT: usize = 256;

/// Default flash page size in bytes.
pub const DEFAULT_PAGE_SIZE: usize = 128;

/// Default base address of flash memory.
pub const DEFAULT_START_ADDRESS: u32 = 0x0800_0000;

} // verus!
