//! Wire codec: pure, stateless byte-level primitives of the AN3155 protocol.
//!
//! Command bytes and their complements, ACK/NACK decoding, XOR checksums and
//! big-endian multi-byte fields. No I/O happens here.

use vstd::prelude::*;

use crate::error::Error;

verus! {

/// Byte that acknowledges a request.
pub const ACK_BYTE: u8 = 0x79;

/// Byte that rejects a request.
pub const NACK_BYTE: u8 = 0x1F;

/// The commands of the AN3155 UART bootloader protocol.
#[derive(Clone, Copy, Debug, PartialEq, Eq, Structural)]
pub enum BootloaderCommand {
    /// Gets the version and the allowed commands supported by the current
    /// version of the protocol.
    Get,
    /// Gets the protocol version.
    GetVersion,
    /// Gets the chip ID.
    GetId,
    /// Reads up to 256 bytes of memory starting from a given address.
    ReadMemory,
    /// Jumps to user application code.
    Go,
    /// Writes up to 256 bytes to RAM or flash starting from a given address.
    WriteMemory,
    /// Erases from one to all flash memory pages.
    Erase,
    /// Erases flash pages using two-byte addressing mode.
    ExtendedErase,
    /// Generic vendor-specific command.
    Special,
    /// Generic vendor-specific command with a larger payload.
    ExtendedSpecial,
    /// Enables write protection for some sectors.
    WriteProtect,
    /// Disables write protection for all flash memory sectors.
    WriteUnprotect,
    /// Enables read protection.
    ReadoutProtect,
    /// Disables read protection.
    ReadoutUnprotect,
    /// Computes a CRC over a memory area.
    GetChecksum,
}

/// The fixed byte value of each bootloader command.
pub open spec fn command_byte(cmd: BootloaderCommand) -> u8 {
    match cmd {
        BootloaderCommand::Get => 0x00,
        BootloaderCommand::GetVersion => 0x01,
        BootloaderCommand::GetId => 0x02,
        BootloaderCommand::ReadMemory => 0x11,
        BootloaderCommand::Go => 0x21,
        BootloaderCommand::WriteMemory => 0x31,
        BootloaderCommand::Erase => 0x43,
        BootloaderCommand::ExtendedErase => 0x44,
        BootloaderCommand::Special => 0x50,
        BootloaderCommand::ExtendedSpecial => 0x51,
        BootloaderCommand::WriteProtect => 0x63,
        BootloaderCommand::WriteUnprotect => 0x73,
        BootloaderCommand::ReadoutProtect => 0x82,
        BootloaderCommand::ReadoutUnprotect => 0x92,
        BootloaderCommand::GetChecksum => 0xA1,
    }
}

/// Whether a byte is the value of some bootloader command.
pub open spec fn is_command_byte(b: u8) -> bool {
    ||| b == 0x00
    ||| b == 0x01
    ||| b == 0x02
    ||| b == 0x11
    ||| b == 0x21
    ||| b == 0x31
    ||| b == 0x43
    ||| b == 0x44
    ||| b == 0x50
    ||| b == 0x51
    ||| b == 0x63
    ||| b == 0x73
    ||| b == 0x82
    ||| b == 0x92
    ||| b == 0xA1
}

/// The command a recognized byte stands for.
pub open spec fn command_of_byte(b: u8) -> BootloaderCommand
    recommends
        is_command_byte(b),
{
    if b == 0x00 {
        BootloaderCommand::Get
    } else if b == 0x01 {
        BootloaderCommand::GetVersion
    } else if b == 0x02 {
        BootloaderCommand::GetId
    } else if b == 0x11 {
        BootloaderCommand::ReadMemory
    } else if b == 0x21 {
        BootloaderCommand::Go
    } else if b == 0x31 {
        BootloaderCommand::WriteMemory
    } else if b == 0x43 {
        BootloaderCommand::Erase
    } else if b == 0x44 {
        BootloaderCommand::ExtendedErase
    } else if b == 0x50 {
        BootloaderCommand::Special
    } else if b == 0x51 {
        BootloaderCommand::ExtendedSpecial
    } else if b == 0x63 {
        BootloaderCommand::WriteProtect
    } else if b == 0x73 {
        BootloaderCommand::WriteUnprotect
    } else if b == 0x82 {
        BootloaderCommand::ReadoutProtect
    } else if b == 0x92 {
        BootloaderCommand::ReadoutUnprotect
    } else {
        BootloaderCommand::GetChecksum
    }
}

impl BootloaderCommand {
    /// The wire byte of this command.
    pub fn byte(&self) -> (b: u8)
        ensures
            b == command_byte(*self),
    {
        match self {
            BootloaderCommand::Get => 0x00,
            BootloaderCommand::GetVersion => 0x01,
            BootloaderCommand::GetId => 0x02,
            BootloaderCommand::ReadMemory => 0x11,
            BootloaderCommand::Go => 0x21,
            BootloaderCommand::WriteMemory => 0x31,
            BootloaderCommand::Erase => 0x43,
            BootloaderCommand::ExtendedErase => 0x44,
            BootloaderCommand::Special => 0x50,
            BootloaderCommand::ExtendedSpecial => 0x51,
            BootloaderCommand::WriteProtect => 0x63,
            BootloaderCommand::WriteUnprotect => 0x73,
            BootloaderCommand::ReadoutProtect => 0x82,
            BootloaderCommand::ReadoutUnprotect => 0x92,
            BootloaderCommand::GetChecksum => 0xA1,
        }
    }
}

/// Decodes a byte read from a capability list into a command.
///
/// Total over `u8`: every byte outside the fixed command set yields
/// `Error::InvalidBootloaderCommand` carrying that byte.
pub fn decode_command(b: u8) -> (r: Result<BootloaderCommand, Error>)
    ensures
        r is Ok <==> is_command_byte(b),
        r matches Ok(cmd) ==> cmd == command_of_byte(b) && command_byte(cmd) == b,
        !is_command_byte(b) ==> r == Err::<BootloaderCommand, Error>(
            Error::InvalidBootloaderCommand(b),
        ),
{
    match b {
        0x00 => Ok(BootloaderCommand::Get),
        0x01 => Ok(BootloaderCommand::GetVersion),
        0x02 => Ok(BootloaderCommand::GetId),
        0x11 => Ok(BootloaderCommand::ReadMemory),
        0x21 => Ok(BootloaderCommand::Go),
        0x31 => Ok(BootloaderCommand::WriteMemory),
        0x43 => Ok(BootloaderCommand::Erase),
        0x44 => Ok(BootloaderCommand::ExtendedErase),
        0x50 => Ok(BootloaderCommand::Special),
        0x51 => Ok(BootloaderCommand::ExtendedSpecial),
        0x63 => Ok(BootloaderCommand::WriteProtect),
        0x73 => Ok(BootloaderCommand::WriteUnprotect),
        0x82 => Ok(BootloaderCommand::ReadoutProtect),
        0x92 => Ok(BootloaderCommand::ReadoutUnprotect),
        0xA1 => Ok(BootloaderCommand::GetChecksum),
        _ => Err(Error::InvalidBootloaderCommand(b)),
    }
}

/// Packet response from the bootloader.
#[derive(Clone, Copy, Debug, PartialEq, Eq, Structural)]
pub enum Response {
    /// Accepted.
    Ack,
    /// Not accepted.
    Nack,
}

/// Decodes a byte read where only an acknowledgment is valid.
///
/// Total over `u8`: succeeds exactly on the ACK and NACK bytes; every other
/// byte yields `Error::InvalidResponse` carrying that byte.
pub fn decode_response(b: u8) -> (r: Result<Response, Error>)
    ensures
        r is Ok <==> (b == ACK_BYTE || b == NACK_BYTE),
        b == ACK_BYTE ==> r == Ok::<Response, Error>(Response::Ack),
        b == NACK_BYTE ==> r == Ok::<Response, Error>(Response::Nack),
        !(b == ACK_BYTE || b == NACK_BYTE) ==> r == Err::<Response, Error>(
            Error::InvalidResponse(b),
        ),
{
    match b {
        0x79 => Ok(Response::Ack),
        0x1F => Ok(Response::Nack),
        _ => Err(Error::InvalidResponse(b)),
    }
}

/// Bitwise complement of a byte, as sent after every command byte.
pub open spec fn complement_byte(b: u8) -> u8 {
    !b
}

/// The universal two-byte command-frame header: the command byte followed by
/// its bitwise complement.
pub open spec fn command_frame(cmd: BootloaderCommand) -> Seq<u8> {
    seq![command_byte(cmd), complement_byte(command_byte(cmd))]
}

/// Encodes a command as its two-byte frame header.
///
/// The second byte is always the bitwise complement of the first.
pub fn encode_command(cmd: BootloaderCommand) -> (r: [u8; 2])
    ensures
        r@ == command_frame(cmd),
        r@[0] == command_byte(cmd),
        r@[1] == complement_byte(r@[0]),
{
    let b = cmd.byte();
    let r = [b, !b];
    proof {
        assert(r@ =~= command_frame(cmd));
    }
    r
}

/// XOR fold of a byte sequence, seed 0.
pub open spec fn checksum_spec(s: Seq<u8>) -> u8
    decreases s.len(),
{
    if s.len() == 0 {
        0
    } else {
        checksum_spec(s.drop_last()) ^ s.last()
    }
}

/// XOR checksum of a byte slice: the fold of all bytes, seed 0.
pub fn checksum(bytes: &[u8]) -> (r: u8)
    ensures
        r == checksum_spec(bytes@),
{
    let mut acc: u8 = 0;
    let mut i: usize = 0;
    while i < bytes.len()
        invariant
            i <= bytes@.len(),
            acc == checksum_spec(bytes@.take(i as int)),
        decreases bytes@.len() - i,
    {
        proof {
            assert(bytes@.take(i + 1).drop_last() =~= bytes@.take(i as int));
            assert(bytes@.take(i + 1).last() == bytes@[i as int]);
        }
        acc = acc ^ bytes[i];
        i = i + 1;
    }
    proof {
        assert(bytes@.take(bytes@.len() as int) =~= bytes@);
    }
    acc
}

/// Folding a sequence extended by one byte XORs that byte into the fold.
pub proof fn lemma_checksum_push(s: Seq<u8>, b: u8)
    ensures
        checksum_spec(s.push(b)) == checksum_spec(s) ^ b,
{
    assert(s.push(b).drop_last() =~= s);
    assert(s.push(b).last() == b);
}

/// The checksum is its own inverse under XOR: folding a sequence twice into
/// zero cancels out.
pub proof fn lemma_checksum_self_inverse(s: Seq<u8>)
    ensures
        checksum_spec(s) ^ checksum_spec(s) == 0,
{
    let c = checksum_spec(s);
    assert(c ^ c == 0) by (bit_vector);
}

/// Appending a sequence's checksum byte to the sequence and re-folding
/// yields zero.
pub proof fn lemma_checksum_appended_is_zero(s: Seq<u8>)
    ensures
        checksum_spec(s.push(checksum_spec(s))) == 0,
{
    lemma_checksum_push(s, checksum_spec(s));
    lemma_checksum_self_inverse(s);
}

/// A body followed by its own XOR checksum byte, as the protocol frames every
/// payload that is longer than a bare command header.
pub open spec fn checksummed_block(body: Seq<u8>) -> Seq<u8> {
    body.push(checksum_spec(body))
}

/// A payload framed as its length-minus-one byte, the data bytes, and the XOR
/// checksum over all of the preceding bytes.
pub open spec fn counted_block(data: Seq<u8>) -> Seq<u8>
    recommends
        1 <= data.len() <= 256,
{
    checksummed_block(seq![(data.len() - 1) as u8].add(data))
}

/// The two big-endian bytes of a 16-bit value.
pub open spec fn be16_bytes(x: u16) -> Seq<u8> {
    seq![(x >> 8) as u8, (x & 0xFF) as u8]
}

/// The 16-bit value two big-endian bytes stand for.
pub open spec fn be16_val(hi: u8, lo: u8) -> u16 {
    (256 * (hi as int) + (lo as int)) as u16
}

/// The four big-endian bytes of a 32-bit value.
pub open spec fn be32_bytes(x: u32) -> Seq<u8> {
    seq![(x >> 24) as u8, ((x >> 16) & 0xFF) as u8, ((x >> 8) & 0xFF) as u8, (x & 0xFF) as u8]
}

/// Splits a 16-bit value into its two big-endian bytes.
pub fn be16_encode(x: u16) -> (r: [u8; 2])
    ensures
        r@ == be16_bytes(x),
{
    let r = [(x >> 8) as u8, (x & 0xFF) as u8];
    proof {
        assert(r@ =~= be16_bytes(x));
    }
    r
}

/// Reads a 16-bit value from its two big-endian bytes.
pub fn be16_decode(hi: u8, lo: u8) -> (r: u16)
    ensures
        r == be16_val(hi, lo),
{
    let r = (hi as u16) << 8 | (lo as u16);
    proof {
        assert(r == (hi as u16) * 256 + (lo as u16)) by (bit_vector)
            requires
                r == (hi as u16) << 8 | (lo as u16),
        ;
    }
    r
}

/// Splits a 32-bit value into its four big-endian bytes.
pub fn be32_encode(x: u32) -> (r: [u8; 4])
    ensures
        r@ == be32_bytes(x),
{
    let r = [(x >> 24) as u8, ((x >> 16) & 0xFF) as u8, ((x >> 8) & 0xFF) as u8, (x & 0xFF) as u8];
    proof {
        assert(r@ =~= be32_bytes(x));
    }
    r
}

/// Which erase command a chip's bootloader supports.
///
/// Each bootloader supports either the standard erase command or the
/// extended (two-byte addressing) one; the two are mutually exclusive.
#[derive(Clone, Copy, Debug, PartialEq, Eq, Structural)]
pub enum EraseCommand {
    /// Standard erase command with one-byte page indices.
    Erase,
    /// Erase command using two-byte addressing mode.
    ExtendedErase,
}

/// Global-erase target of the extended erase command.
#[derive(Clone, Copy, Debug, PartialEq, Eq, Structural)]
pub enum BankErase {
    /// Erase all banks.
    Global,
    /// Erase only bank 1.
    Bank1,
    /// Erase only bank 2.
    Bank2,
}

/// The fixed three-byte sentinel each global-erase target sends.
pub open spec fn bank_bytes(bank: BankErase) -> Seq<u8> {
    match bank {
        BankErase::Global => seq![0xFF, 0xFF, 0x00],
        BankErase::Bank1 => seq![0xFF, 0xFE, 0x01],
        BankErase::Bank2 => seq![0xFF, 0xFD, 0x02],
    }
}

/// The three-byte sentinel of a global-erase target.
pub fn bank_sentinel(bank: BankErase) -> (r: [u8; 3])
    ensures
        r@ == bank_bytes(bank),
{
    let r = match bank {
        BankErase::Global => [0xFF, 0xFF, 0x00],
        BankErase::Bank1 => [0xFF, 0xFE, 0x01],
        BankErase::Bank2 => [0xFF, 0xFD, 0x02],
    };
    proof {
        assert(r@ =~= bank_bytes(bank));
    }
    r
}

/// The big-endian bytes of a sequence of 16-bit values, concatenated in
/// order.
pub open spec fn be16_concat(xs: Seq<u16>) -> Seq<u8>
    decreases xs.len(),
{
    if xs.len() == 0 {
        Seq::empty()
    } else {
        be16_bytes(xs[0]).add(be16_concat(xs.skip(1)))
    }
}

/// Concatenating one more 16-bit value appends its two big-endian bytes.
pub proof fn lemma_be16_concat_push(xs: Seq<u16>, x: u16)
    ensures
        be16_concat(xs.push(x)) == be16_concat(xs) + be16_bytes(x),
    decreases xs.len(),
{
    let l = xs.push(x);
    if xs.len() == 0 {
        assert(l[0] == x);
        assert(l.skip(1) =~= Seq::<u16>::empty());
        assert(be16_concat(l) == be16_bytes(x).add(be16_concat(Seq::<u16>::empty())));
        assert(be16_bytes(x).add(Seq::<u8>::empty()) =~= be16_concat(xs) + be16_bytes(x));
    } else {
        assert(l.skip(1) =~= xs.skip(1).push(x));
        lemma_be16_concat_push(xs.skip(1), x);
        assert(l[0] == xs[0]);
        assert(be16_concat(l) == be16_bytes(xs[0]).add(be16_concat(xs.skip(1).push(x))));
        assert(be16_concat(xs) == be16_bytes(xs[0]).add(be16_concat(xs.skip(1))));
        assert(be16_bytes(xs[0]).add(be16_concat(xs.skip(1)) + be16_bytes(x)) =~= be16_bytes(
            xs[0],
        ).add(be16_concat(xs.skip(1))) + be16_bytes(x));
    }
}

/// The payload of an extended erase command: the big-endian page count, each
/// page index as two big-endian bytes, and the XOR checksum over all of it.
pub open spec fn extended_erase_payload(pages: Seq<u16>) -> Seq<u8>
    recommends
        1 <= pages.len() <= 0xFFFF,
{
    checksummed_block(be16_bytes(pages.len() as u16).add(be16_concat(pages)))
}

/// Bootloader version: one byte, major in the high nibble, minor in the low.
#[derive(Clone, Copy, Debug, PartialEq, Eq, Structural)]
pub struct Version(pub u8);

impl Version {
    /// Major and minor version numbers.
    pub fn value(&self) -> (r: (u8, u8))
        ensures
            r.0 == self.0 >> 4,
            r.1 == self.0 & 0x0F,
    {
        (self.major(), self.minor())
    }

    /// Major version number: the high nibble.
    pub fn major(&self) -> (r: u8)
        ensures
            r == self.0 >> 4,
    {
        self.0 >> 4
    }

    /// Minor version number: the low nibble.
    pub fn minor(&self) -> (r: u8)
        ensures
            r == self.0 & 0x0F,
    {
        self.0 & 0x0F
    }
}

impl From<u8> for Version {
    /// Packs a raw version byte.
    fn from(v: u8) -> (r: Self) {
        Version(v)
    }
}

impl vstd::std_specs::convert::FromSpecImpl<u8> for Version {
    open spec fn obeys_from_spec() -> bool {
        true
    }

    open spec fn from_spec(v: u8) -> Version {
        Version(v)
    }
}

} // verus!
