//! Error taxonomy of the bootloader driver.

use vstd::prelude::*;

verus! {

/// Everything that can go wrong while talking to the bootloader.
#[derive(Clone, Copy, Debug, PartialEq, Eq, Structural)]
pub enum Error {
    /// A byte appeared where only an ACK or a NACK is valid.
    InvalidResponse(u8),
    /// The bootloader explicitly rejected the last command.
    Nack,
    /// An unrecognized command byte appeared in a capability list.
    InvalidBootloaderCommand(u8),
    /// The device exposes neither erase command variant.
    Unsupported,
    /// The caller asked to erase more pages than a single command allows.
    ErasePageCount(usize),
    /// The caller asked to transfer more bytes than a single command allows.
    WriteBytesCount(usize),
    /// A computed page index cannot be expressed by the active erase command.
    PageOutOfRange(u32),
    /// Read-back after a write differed from the written data; the payload is
    /// the offset of the first differing byte within the flashed image.
    Verification(usize),
    /// The byte-stream collaborator failed (timeout, short read, I/O error).
    Transport,
}

} // verus!
