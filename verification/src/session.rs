//! The protocol session: turns command intents into exact byte frames over a
//! byte stream and interprets the returned bytes, in strict request/response
//! lock-step.
//!
//! Every method's contract pins down, for a successful call, exactly which
//! bytes went out on the wire and which pending bytes were consumed; and, on
//! a reliable stream with enough pending input, exactly which result comes
//! back for every possible input (spelled out by the `*_result` spec
//! functions).

use vstd::prelude::*;

use crate::codec::{
    command_frame, counted_block, checksummed_block, complement_byte, be16_bytes, be16_concat,
    be16_val, be32_bytes, command_of_byte, extended_erase_payload, is_command_byte, checksum,
    decode_command, decode_response, encode_command, be16_encode, be32_encode, BankErase,
    BootloaderCommand, EraseCommand, Response, Version, ACK_BYTE, NACK_BYTE,
};
use crate::error::Error;
use crate::stream::ByteStream;
use crate::{MAX_ERASE_PAGE_COUNT, MAX_WRITE_BYTES_COUNT, MAX_READ_BYTES_COUNT, SYNC_BYTE};

verus! {

/// The error an acknowledgment byte other than ACK decodes to.
pub open spec fn ack_err(b: u8) -> Error {
    if b == NACK_BYTE {
        Error::Nack
    } else {
        Error::InvalidResponse(b)
    }
}

/// The outcome of reading one acknowledgment byte.
pub open spec fn ack_result(b: u8) -> Result<(), Error> {
    if b == ACK_BYTE {
        Ok(())
    } else {
        Err(ack_err(b))
    }
}

/// The outcome of a command that reads two acknowledgments, at pending
/// positions 0 and 1.
pub open spec fn two_ack_result(p: Seq<u8>) -> Result<(), Error> {
    if p[0] != ACK_BYTE {
        ack_result(p[0])
    } else {
        ack_result(p[1])
    }
}

/// The outcome of a command that reads three acknowledgments, at pending
/// positions 0, 1 and 2.
pub open spec fn three_ack_result(p: Seq<u8>) -> Result<(), Error> {
    if p[0] != ACK_BYTE {
        ack_result(p[0])
    } else if p[1] != ACK_BYTE {
        ack_result(p[1])
    } else {
        ack_result(p[2])
    }
}

/// The outcome of `get_version` on pending input `p`: an acknowledgment, the
/// version byte, two reserved bytes, and a trailing acknowledgment.
pub open spec fn get_version_result(p: Seq<u8>) -> Result<Version, Error>
    recommends
        p.len() >= 5,
{
    if p[0] != ACK_BYTE {
        Err(ack_err(p[0]))
    } else if p[4] != ACK_BYTE {
        Err(ack_err(p[4]))
    } else {
        Ok(Version(p[1]))
    }
}

/// The outcome of `get_id` on pending input `p`: an acknowledgment, a length
/// byte that must be 1, two big-endian product-id bytes, and a trailing
/// acknowledgment.
pub open spec fn get_id_result(p: Seq<u8>) -> Result<u16, Error>
    recommends
        p.len() >= 5,
{
    if p[0] != ACK_BYTE {
        Err(ack_err(p[0]))
    } else if p[1] != 1 {
        Err(Error::InvalidResponse(p[1]))
    } else if p[4] != ACK_BYTE {
        Err(ack_err(p[4]))
    } else {
        Ok(be16_val(p[2], p[3]))
    }
}

/// Decodes a window of capability-list bytes into commands, failing on the
/// first unrecognized byte.
pub open spec fn decode_commands(bytes: Seq<u8>) -> Result<Seq<BootloaderCommand>, Error>
    decreases bytes.len(),
{
    if bytes.len() == 0 {
        Ok(Seq::empty())
    } else if !is_command_byte(bytes[0]) {
        Err(Error::InvalidBootloaderCommand(bytes[0]))
    } else {
        match decode_commands(bytes.skip(1)) {
            Ok(rest) => Ok(seq![command_of_byte(bytes[0])].add(rest)),
            Err(e) => Err(e),
        }
    }
}

/// The command count a `Get` reply announces: its second pending byte.
pub open spec fn gc_count(p: Seq<u8>) -> int {
    p[1] as int
}

/// How many pending bytes a successful `get_commands` consumes.
pub open spec fn gc_consumed(p: Seq<u8>) -> int {
    gc_count(p) + 4
}

/// The window of pending bytes that hold the capability list (the byte
/// between count and window is the protocol version, which is discarded).
pub open spec fn gc_window(p: Seq<u8>) -> Seq<u8> {
    p.subrange(3, 3 + gc_count(p))
}

/// The outcome of `get_commands` on pending input `p`.
pub open spec fn get_commands_result(p: Seq<u8>) -> Result<Seq<BootloaderCommand>, Error>
    recommends
        p.len() >= gc_consumed(p),
{
    if p[0] != ACK_BYTE {
        Err(ack_err(p[0]))
    } else if p[3 + gc_count(p)] != ACK_BYTE {
        Err(ack_err(p[3 + gc_count(p)]))
    } else {
        decode_commands(gc_window(p))
    }
}

/// Which erase command a capability list selects: the standard command when
/// present, else the extended one, else no erase is supported.
pub open spec fn erase_choice(cmds: Seq<BootloaderCommand>) -> Result<EraseCommand, Error> {
    if cmds.contains(BootloaderCommand::Erase) {
        Ok(EraseCommand::Erase)
    } else if cmds.contains(BootloaderCommand::ExtendedErase) {
        Ok(EraseCommand::ExtendedErase)
    } else {
        Err(Error::Unsupported)
    }
}

/// The outcome of `get_erase_command` on pending input `p`.
pub open spec fn erase_command_result(p: Seq<u8>) -> Result<EraseCommand, Error>
    recommends
        p.len() >= gc_consumed(p),
{
    match get_commands_result(p) {
        Ok(cmds) => erase_choice(cmds),
        Err(e) => Err(e),
    }
}

/// A session over a byte stream, exchanging one command at a time.
pub struct AN3155<S: ByteStream> {
    serial: S,
}

/// Relates two session states around a successful exchange: `out_bytes` were
/// appended to the stream and the first `consumed` pending bytes were read.
pub open spec fn exchanged<S: ByteStream>(
    pre: AN3155<S>,
    post: AN3155<S>,
    out_bytes: Seq<u8>,
    consumed: int,
) -> bool {
    &&& post.sent() == pre.sent() + out_bytes
    &&& post.pending() == pre.pending().skip(consumed)
    &&& post.reliable() == pre.reliable()
}

/// True when a call left the stream exactly as it found it.
pub open spec fn io_unchanged<S: ByteStream>(pre: AN3155<S>, post: AN3155<S>) -> bool {
    &&& post.sent() == pre.sent()
    &&& post.pending() == pre.pending()
    &&& post.reliable() == pre.reliable()
}

/// Relates two session states around a write-only step: `out_bytes` were
/// appended to the stream and nothing was read.
pub open spec fn emitted<S: ByteStream>(pre: AN3155<S>, post: AN3155<S>, out_bytes: Seq<u8>) -> bool {
    &&& post.sent() == pre.sent() + out_bytes
    &&& post.pending() == pre.pending()
    &&& post.reliable() == pre.reliable()
}

/// Relates two session states around a read-only step: the first `k` pending
/// bytes were consumed and nothing was written.
pub open spec fn consumed<S: ByteStream>(pre: AN3155<S>, post: AN3155<S>, k: int) -> bool {
    &&& post.sent() == pre.sent()
    &&& post.pending() == pre.pending().skip(k)
    &&& post.reliable() == pre.reliable()
}

impl<S: ByteStream> AN3155<S> {
    /// The bytes still to be read from the underlying stream.
    pub closed spec fn pending(&self) -> Seq<u8> {
        self.serial.pending()
    }

    /// All bytes this session has written so far.
    pub closed spec fn sent(&self) -> Seq<u8> {
        self.serial.sent()
    }

    /// Whether the underlying transport never fails.
    pub closed spec fn reliable(&self) -> bool {
        self.serial.reliable()
    }

    /// Wraps an already-synchronized byte stream.
    pub fn with(serial: S) -> (s: Self)
        ensures
            s.pending() == serial.pending(),
            s.sent() == serial.sent(),
            s.reliable() == serial.reliable(),
    {
        AN3155 { serial }
    }

    /// Gives the byte stream back.
    pub fn into_inner(self) -> (s: S)
        ensures
            s.pending() == self.pending(),
            s.sent() == self.sent(),
            s.reliable() == self.reliable(),
    {
        self.serial
    }

    /// Primes the bootloader's auto-baud detection: writes the
    /// synchronization byte and consumes one response byte, whose value is
    /// deliberately ignored.
    pub fn initialize(&mut self) -> (r: Result<(), Error>)
        ensures
            r is Ok ==> old(self).pending().len() >= 1 && exchanged(
                *old(self),
                *final(self),
                seq![SYNC_BYTE],
                1,
            ),
            old(self).reliable() && old(self).pending().len() >= 1 ==> r is Ok,
    {
        let buf = [SYNC_BYTE];
        match self.serial.write_all(buf.as_slice()) {
            Ok(_) => (),
            Err(e) => {
                return Err(e);
            },
        }
        proof {
            assert(buf@ =~= seq![SYNC_BYTE]);
        }
        match self.read_byte() {
            Ok(_) => Ok(()),
            Err(e) => Err(e),
        }
    }

    /// Reads one byte.
    fn read_byte(&mut self) -> (r: Result<u8, Error>)
        ensures
            r matches Ok(b) ==> old(self).pending().len() >= 1 && b == old(self).pending()[0]
                && consumed(*old(self), *final(self), 1),
            old(self).reliable() && old(self).pending().len() >= 1 ==> r is Ok,
    {
        match self.serial.read_exact(1) {
            Ok(v) => {
                proof {
                    assert(v@[0] == old(self).pending()[0]);
                }
                Ok(v[0])
            },
            Err(e) => Err(e),
        }
    }

    /// Reads one acknowledgment byte. ACK succeeds, NACK is the bootloader's
    /// rejection, anything else is an invalid response.
    fn read_ack(&mut self) -> (r: Result<(), Error>)
        ensures
            r is Ok ==> old(self).pending().len() >= 1 && old(self).pending()[0] == ACK_BYTE
                && consumed(*old(self), *final(self), 1),
            old(self).reliable() && old(self).pending().len() >= 1 ==> r == ack_result(
                old(self).pending()[0],
            ),
    {
        let b = match self.read_byte() {
            Ok(b) => b,
            Err(e) => {
                return Err(e);
            },
        };
        match decode_response(b) {
            Ok(Response::Ack) => Ok(()),
            Ok(Response::Nack) => Err(Error::Nack),
            Err(e) => Err(e),
        }
    }

    /// Writes a command-frame header and waits for its acknowledgment.
    fn write_command(&mut self, command: BootloaderCommand) -> (r: Result<(), Error>)
        ensures
            r is Ok ==> old(self).pending().len() >= 1 && old(self).pending()[0] == ACK_BYTE
                && exchanged(*old(self), *final(self), command_frame(command), 1),
            old(self).reliable() && old(self).pending().len() >= 1 ==> r == ack_result(
                old(self).pending()[0],
            ),
    {
        let buf = encode_command(command);
        match self.serial.write_all(buf.as_slice()) {
            Ok(_) => (),
            Err(e) => {
                return Err(e);
            },
        }
        self.read_ack()
    }

    /// Writes a body followed by its XOR checksum byte.
    fn write_checksummed(&mut self, bytes: &Vec<u8>) -> (r: Result<(), Error>)
        ensures
            r is Ok ==> emitted(*old(self), *final(self), checksummed_block(bytes@)),
            old(self).reliable() ==> r is Ok,
    {
        let chksum = checksum(bytes.as_slice());
        match self.serial.write_all(bytes.as_slice()) {
            Ok(_) => (),
            Err(e) => {
                return Err(e);
            },
        }
        let cs = [chksum];
        let r = self.serial.write_all(cs.as_slice());
        proof {
            assert(old(self).sent() + bytes@ + cs@ =~= old(self).sent() + checksummed_block(
                bytes@,
            ));
        }
        r
    }

    /// Gets the bootloader version. The two capability bytes after the
    /// version byte are read and discarded.
    pub fn get_version(&mut self) -> (r: Result<Version, Error>)
        ensures
            r matches Ok(v) ==> old(self).pending().len() >= 5 && old(self).pending()[0]
                == ACK_BYTE && old(self).pending()[4] == ACK_BYTE && v == Version(
                old(self).pending()[1],
            ) && exchanged(
                *old(self),
                *final(self),
                command_frame(BootloaderCommand::GetVersion),
                5,
            ),
            old(self).reliable() && old(self).pending().len() >= 5 ==> r == get_version_result(
                old(self).pending(),
            ),
    {
        match self.write_command(BootloaderCommand::GetVersion) {
            Ok(_) => (),
            Err(e) => {
                return Err(e);
            },
        }
        let byte = match self.read_byte() {
            Ok(b) => b,
            Err(e) => {
                return Err(e);
            },
        };
        match self.serial.read_exact(2) {
            Ok(_) => (),
            Err(e) => {
                return Err(e);
            },
        }
        match self.read_ack() {
            Ok(_) => (),
            Err(e) => {
                return Err(e);
            },
        }
        proof {
            assert(old(self).pending().skip(1).skip(1).skip(2).skip(1) =~= old(
                self,
            ).pending().skip(5));
            assert(old(self).pending().skip(1)[0] == old(self).pending()[1]);
            assert(old(self).pending().skip(1).skip(1).skip(2)[0] == old(self).pending()[4]);
        }
        Ok(Version(byte))
    }

    /// Gets the product ID: two big-endian bytes, announced by a length byte
    /// that the protocol fixes at 1.
    pub fn get_id(&mut self) -> (r: Result<u16, Error>)
        ensures
            r matches Ok(id) ==> old(self).pending().len() >= 5 && old(self).pending()[0]
                == ACK_BYTE && old(self).pending()[1] == 1 && old(self).pending()[4] == ACK_BYTE
                && id == be16_val(old(self).pending()[2], old(self).pending()[3]) && exchanged(
                *old(self),
                *final(self),
                command_frame(BootloaderCommand::GetId),
                5,
            ),
            old(self).reliable() && old(self).pending().len() >= 5 ==> r == get_id_result(
                old(self).pending(),
            ),
    {
        match self.write_command(BootloaderCommand::GetId) {
            Ok(_) => (),
            Err(e) => {
                return Err(e);
            },
        }
        let n = match self.read_byte() {
            Ok(b) => b,
            Err(e) => {
                return Err(e);
            },
        };
        if n != 1 {
            return Err(Error::InvalidResponse(n));
        }
        let pid = match self.serial.read_exact(2) {
            Ok(v) => v,
            Err(e) => {
                return Err(e);
            },
        };
        match self.read_ack() {
            Ok(_) => (),
            Err(e) => {
                return Err(e);
            },
        }
        proof {
            assert(old(self).pending().skip(1).skip(1).skip(2).skip(1) =~= old(
                self,
            ).pending().skip(5));
            assert(old(self).pending().skip(1)[0] == old(self).pending()[1]);
            assert(old(self).pending().skip(1).skip(1)[0] == old(self).pending()[2]);
            assert(old(self).pending().skip(1).skip(1)[1] == old(self).pending()[3]);
            assert(old(self).pending().skip(1).skip(1).skip(2)[0] == old(self).pending()[4]);
        }
        Ok(be16_decode_pair(&pid))
    }

    /// Gets the capability list: the commands this bootloader supports.
    ///
    /// The reply's protocol-version byte is read and discarded; the whole
    /// call fails if any capability byte is unrecognized.
    pub fn get_commands(&mut self) -> (r: Result<Vec<BootloaderCommand>, Error>)
        ensures
            r matches Ok(cmds) ==> old(self).pending().len() >= gc_consumed(old(self).pending())
                && old(self).pending()[0] == ACK_BYTE && old(self).pending()[3 + gc_count(
                old(self).pending(),
            )] == ACK_BYTE && decode_commands(gc_window(old(self).pending())) == Ok::<_, Error>(
                cmds@,
            ) && exchanged(
                *old(self),
                *final(self),
                command_frame(BootloaderCommand::Get),
                gc_consumed(old(self).pending()),
            ),
            old(self).reliable() && old(self).pending().len() >= gc_consumed(old(self).pending())
                ==> (get_commands_result(old(self).pending()) matches Ok(s) ==> r matches Ok(cmds)
                && cmds@ == s) && (get_commands_result(old(self).pending()) matches Err(e) ==> r
                == Err::<Vec<BootloaderCommand>, Error>(e)),
    {
        match self.write_command(BootloaderCommand::Get) {
            Ok(_) => (),
            Err(e) => {
                return Err(e);
            },
        }
        let n = match self.read_byte() {
            Ok(b) => b,
            Err(e) => {
                return Err(e);
            },
        };
        let buf = match self.serial.read_exact(n as usize + 1) {
            Ok(v) => v,
            Err(e) => {
                return Err(e);
            },
        };
        match self.read_ack() {
            Ok(_) => (),
            Err(e) => {
                return Err(e);
            },
        }
        let ghost p = old(self).pending();
        proof {
            assert(p.skip(1).skip(1).skip(n as int + 1).skip(1) =~= p.skip(gc_consumed(p)));
            assert(p.skip(1)[0] == p[1]);
            assert(p.skip(1).skip(1).skip(n as int + 1)[0] == p[3 + gc_count(p)]);
            assert(buf@.skip(1) =~= gc_window(p));
        }
        let ghost window = gc_window(p);
        let mut commands: Vec<BootloaderCommand> = Vec::new();
        let mut i: usize = 1;
        proof {
            assert(window.skip(0) =~= window);
            if decode_commands(window) is Ok {
                let rest = decode_commands(window)->Ok_0;
                assert(commands@ + rest =~= rest);
            }
        }
        #[verifier::loop_isolation(false)]
        while i < buf.len()
            invariant
                1 <= i <= buf@.len(),
                buf@.len() >= 1,
                window == buf@.skip(1),
                commands@.len() == i - 1,
                decode_commands(window.skip(i - 1)) matches Ok(rest) ==> decode_commands(window)
                    == Ok::<_, Error>(commands@ + rest),
                decode_commands(window.skip(i - 1)) matches Err(e) ==> decode_commands(window)
                    == Err::<Seq<BootloaderCommand>, Error>(e),
            decreases buf@.len() - i,
        {
            let ghost j = i - 1;
            proof {
                assert(window.skip(j).len() > 0);
                assert(window.skip(j)[0] == buf@[i as int]);
                assert(window.skip(j).skip(1) =~= window.skip(j + 1));
            }
            let ghost prev = commands@;
            match decode_command(buf[i]) {
                Ok(c) => {
                    commands.push(c);
                    proof {
                        if decode_commands(window.skip(j + 1)) is Ok {
                            let rest = decode_commands(window.skip(j + 1))->Ok_0;
                            assert(decode_commands(window.skip(j)) == Ok::<_, Error>(
                                seq![command_of_byte(window.skip(j)[0])].add(rest),
                            ));
                            assert(seq![command_of_byte(window.skip(j)[0])].add(rest) =~= seq![c]
                                + rest);
                            assert(decode_commands(window) == Ok::<_, Error>(
                                prev + (seq![c] + rest),
                            ));
                            assert(prev + (seq![c] + rest) =~= (prev + seq![c]) + rest);
                            assert(prev + seq![c] =~= commands@);
                        } else {
                            assert(decode_commands(window.skip(j)) == decode_commands(
                                window.skip(j + 1),
                            ));
                        }
                    }
                },
                Err(e) => {
                    proof {
                        assert(decode_commands(window.skip(j)) == Err::<
                            Seq<BootloaderCommand>,
                            Error,
                        >(Error::InvalidBootloaderCommand(window.skip(j)[0])));
                    }
                    return Err(e);
                },
            }
            i = i + 1;
        }
        proof {
            assert(window.skip(buf@.len() - 1) =~= Seq::<u8>::empty());
            assert(commands@ + Seq::<BootloaderCommand>::empty() =~= commands@);
        }
        Ok(commands)
    }

    /// Queries the capability list and selects the erase command the device
    /// supports, preferring the standard one if both somehow appear.
    pub fn get_erase_command(&mut self) -> (r: Result<EraseCommand, Error>)
        ensures
            r matches Ok(cmd) ==> old(self).pending().len() >= gc_consumed(old(self).pending())
                && old(self).pending()[0] == ACK_BYTE && old(self).pending()[3 + gc_count(
                old(self).pending(),
            )] == ACK_BYTE && (decode_commands(gc_window(old(self).pending())) matches Ok(s)
                && erase_choice(s) == Ok::<EraseCommand, Error>(cmd)) && exchanged(
                *old(self),
                *final(self),
                command_frame(BootloaderCommand::Get),
                gc_consumed(old(self).pending()),
            ),
            old(self).reliable() && old(self).pending().len() >= gc_consumed(old(self).pending())
                ==> r == erase_command_result(old(self).pending()),
    {
        let commands = match self.get_commands() {
            Ok(v) => v,
            Err(e) => {
                return Err(e);
            },
        };
        if has_command(&commands, BootloaderCommand::Erase) {
            Ok(EraseCommand::Erase)
        } else if has_command(&commands, BootloaderCommand::ExtendedErase) {
            Ok(EraseCommand::ExtendedErase)
        } else {
            Err(Error::Unsupported)
        }
    }

    /// Writes a length-prefixed, checksummed payload block.
    fn write_counted(&mut self, data: &[u8]) -> (r: Result<(), Error>)
        requires
            1 <= data@.len() <= 256,
        ensures
            r is Ok ==> emitted(*old(self), *final(self), counted_block(data@)),
            old(self).reliable() ==> r is Ok,
    {
        let n1 = (data.len() - 1) as u8;
        let mut buf: Vec<u8> = Vec::new();
        buf.push(n1);
        push_all(&mut buf, data);
        proof {
            assert(buf@ =~= seq![n1].add(data@));
        }
        self.write_checksummed(&buf)
    }

    /// Erases the given pages with the standard erase command.
    ///
    /// Succeeds as a no-op on an empty page list; rejects more pages than a
    /// single command can carry without touching the stream.
    pub fn standard_erase(&mut self, pages: &[u8]) -> (r: Result<(), Error>)
        ensures
            pages@.len() == 0 ==> r is Ok && io_unchanged(*old(self), *final(self)),
            pages@.len() > MAX_ERASE_PAGE_COUNT ==> r == Err::<(), Error>(
                Error::ErasePageCount(pages@.len() as usize),
            ) && io_unchanged(*old(self), *final(self)),
            r is Ok && pages@.len() > 0 ==> pages@.len() <= MAX_ERASE_PAGE_COUNT && old(
                self,
            ).pending().len() >= 2 && old(self).pending()[0] == ACK_BYTE && old(self).pending()[1]
                == ACK_BYTE && exchanged(
                *old(self),
                *final(self),
                command_frame(BootloaderCommand::Erase) + counted_block(pages@),
                2,
            ),
            old(self).reliable() && 1 <= pages@.len() <= MAX_ERASE_PAGE_COUNT && old(
                self,
            ).pending().len() >= 2 ==> r == two_ack_result(old(self).pending()),
    {
        if pages.len() == 0 {
            return Ok(());
        }
        if pages.len() > MAX_ERASE_PAGE_COUNT {
            return Err(Error::ErasePageCount(pages.len()));
        }
        match self.write_command(BootloaderCommand::Erase) {
            Ok(_) => (),
            Err(e) => {
                return Err(e);
            },
        }
        match self.write_counted(pages) {
            Ok(_) => (),
            Err(e) => {
                return Err(e);
            },
        }
        match self.serial.flush() {
            Ok(_) => (),
            Err(e) => {
                return Err(e);
            },
        }
        let r = self.read_ack();
        proof {
            if r is Ok {
                assert(old(self).pending().skip(1).skip(1) =~= old(self).pending().skip(2));
            }
            if old(self).pending().len() >= 2 {
                assert(old(self).pending().skip(1)[0] == old(self).pending()[1]);
            }
            assert(old(self).sent() + command_frame(BootloaderCommand::Erase) + counted_block(
                pages@,
            ) =~= old(self).sent() + (command_frame(BootloaderCommand::Erase) + counted_block(
                pages@,
            )));
        }
        r
    }

    /// Erases all pages with the standard erase command.
    pub fn standard_global_erase(&mut self) -> (r: Result<(), Error>)
        ensures
            r is Ok ==> old(self).pending().len() >= 2 && old(self).pending()[0] == ACK_BYTE
                && old(self).pending()[1] == ACK_BYTE && exchanged(
                *old(self),
                *final(self),
                command_frame(BootloaderCommand::Erase) + seq![0xFF, 0x00],
                2,
            ),
            old(self).reliable() && old(self).pending().len() >= 2 ==> r == two_ack_result(
                old(self).pending(),
            ),
    {
        match self.write_command(BootloaderCommand::Erase) {
            Ok(_) => (),
            Err(e) => {
                return Err(e);
            },
        }
        let payload = [0xFF, 0x00];
        match self.serial.write_all(payload.as_slice()) {
            Ok(_) => (),
            Err(e) => {
                return Err(e);
            },
        }
        match self.serial.flush() {
            Ok(_) => (),
            Err(e) => {
                return Err(e);
            },
        }
        let r = self.read_ack();
        proof {
            if r is Ok {
                assert(old(self).pending().skip(1).skip(1) =~= old(self).pending().skip(2));
            }
            if old(self).pending().len() >= 2 {
                assert(old(self).pending().skip(1)[0] == old(self).pending()[1]);
            }
            assert(payload@ =~= seq![0xFF, 0x00]);
            assert(old(self).sent() + command_frame(BootloaderCommand::Erase) + payload@ =~= old(
                self,
            ).sent() + (command_frame(BootloaderCommand::Erase) + seq![0xFF, 0x00]));
        }
        r
    }

    /// Erases the given pages with the extended (two-byte addressing) erase
    /// command. Succeeds as a no-op on an empty page list.
    pub fn extended_erase(&mut self, pages: &[u16]) -> (r: Result<(), Error>)
        requires
            pages@.len() <= 0xFFFF,
        ensures
            pages@.len() == 0 ==> r is Ok && io_unchanged(*old(self), *final(self)),
            r is Ok && pages@.len() > 0 ==> old(self).pending().len() >= 2 && old(
                self,
            ).pending()[0] == ACK_BYTE && old(self).pending()[1] == ACK_BYTE && exchanged(
                *old(self),
                *final(self),
                command_frame(BootloaderCommand::ExtendedErase) + extended_erase_payload(pages@),
                2,
            ),
            old(self).reliable() && pages@.len() >= 1 && old(self).pending().len() >= 2 ==> r
                == two_ack_result(old(self).pending()),
    {
        if pages.len() == 0 {
            return Ok(());
        }
        let n = pages.len() as u16;
        let nb = be16_encode(n);
        let mut buf: Vec<u8> = Vec::new();
        buf.push(nb[0]);
        buf.push(nb[1]);
        proof {
            assert(buf@ =~= be16_bytes(n) + be16_concat(pages@.take(0)));
        }
        let mut i: usize = 0;
        while i < pages.len()
            invariant
                i <= pages@.len() <= 0xFFFF,
                n == pages@.len() as u16,
                buf@ == be16_bytes(n) + be16_concat(pages@.take(i as int)),
            decreases pages@.len() - i,
        {
            let pb = be16_encode(pages[i]);
            buf.push(pb[0]);
            buf.push(pb[1]);
            proof {
                crate::codec::lemma_be16_concat_push(pages@.take(i as int), pages@[i as int]);
                assert(pages@.take(i as int).push(pages@[i as int]) =~= pages@.take(i + 1));
                assert(be16_bytes(n) + be16_concat(pages@.take(i as int)) + pb@ =~= be16_bytes(n)
                    + be16_concat(pages@.take(i + 1)));
            }
            i = i + 1;
        }
        proof {
            assert(pages@.take(pages@.len() as int) =~= pages@);
        }
        match self.write_command(BootloaderCommand::ExtendedErase) {
            Ok(_) => (),
            Err(e) => {
                return Err(e);
            },
        }
        match self.write_checksummed(&buf) {
            Ok(_) => (),
            Err(e) => {
                return Err(e);
            },
        }
        match self.serial.flush() {
            Ok(_) => (),
            Err(e) => {
                return Err(e);
            },
        }
        let r = self.read_ack();
        proof {
            if r is Ok {
                assert(old(self).pending().skip(1).skip(1) =~= old(self).pending().skip(2));
            }
            if old(self).pending().len() >= 2 {
                assert(old(self).pending().skip(1)[0] == old(self).pending()[1]);
            }
            assert(old(self).sent() + command_frame(BootloaderCommand::ExtendedErase)
                + checksummed_block(buf@) =~= old(self).sent() + (command_frame(
                BootloaderCommand::ExtendedErase,
            ) + extended_erase_payload(pages@)));
        }
        r
    }

    /// Erases one or all banks with the extended erase command's fixed
    /// global-erase sentinels.
    pub fn extended_global_erase(&mut self, bank: BankErase) -> (r: Result<(), Error>)
        ensures
            r is Ok ==> old(self).pending().len() >= 2 && old(self).pending()[0] == ACK_BYTE
                && old(self).pending()[1] == ACK_BYTE && exchanged(
                *old(self),
                *final(self),
                command_frame(BootloaderCommand::ExtendedErase) + crate::codec::bank_bytes(bank),
                2,
            ),
            old(self).reliable() && old(self).pending().len() >= 2 ==> r == two_ack_result(
                old(self).pending(),
            ),
    {
        let payload = crate::codec::bank_sentinel(bank);
        match self.write_command(BootloaderCommand::ExtendedErase) {
            Ok(_) => (),
            Err(e) => {
                return Err(e);
            },
        }
        match self.serial.write_all(payload.as_slice()) {
            Ok(_) => (),
            Err(e) => {
                return Err(e);
            },
        }
        match self.serial.flush() {
            Ok(_) => (),
            Err(e) => {
                return Err(e);
            },
        }
        let r = self.read_ack();
        proof {
            if r is Ok {
                assert(old(self).pending().skip(1).skip(1) =~= old(self).pending().skip(2));
            }
            if old(self).pending().len() >= 2 {
                assert(old(self).pending().skip(1)[0] == old(self).pending()[1]);
            }
            assert(old(self).sent() + command_frame(BootloaderCommand::ExtendedErase)
                + crate::codec::bank_bytes(bank) =~= old(self).sent() + (command_frame(
                BootloaderCommand::ExtendedErase,
            ) + crate::codec::bank_bytes(bank)));
        }
        r
    }

    /// Writes up to 256 bytes of memory starting at `address`.
    ///
    /// Succeeds as a no-op on an empty slice; rejects more bytes than a
    /// single command can carry without touching the stream. A larger
    /// transfer is never chunked here: that is the orchestrator's job.
    pub fn write_memory(&mut self, address: u32, bytes: &[u8]) -> (r: Result<(), Error>)
        ensures
            bytes@.len() == 0 ==> r is Ok && io_unchanged(*old(self), *final(self)),
            bytes@.len() > MAX_WRITE_BYTES_COUNT ==> r == Err::<(), Error>(
                Error::WriteBytesCount(bytes@.len() as usize),
            ) && io_unchanged(*old(self), *final(self)),
            r is Ok && bytes@.len() > 0 ==> bytes@.len() <= MAX_WRITE_BYTES_COUNT && old(
                self,
            ).pending().len() >= 3 && old(self).pending()[0] == ACK_BYTE && old(self).pending()[1]
                == ACK_BYTE && old(self).pending()[2] == ACK_BYTE && exchanged(
                *old(self),
                *final(self),
                command_frame(BootloaderCommand::WriteMemory) + checksummed_block(
                    be32_bytes(address),
                ) + counted_block(bytes@),
                3,
            ),
            old(self).reliable() && 1 <= bytes@.len() <= MAX_WRITE_BYTES_COUNT && old(
                self,
            ).pending().len() >= 3 ==> r == three_ack_result(old(self).pending()),
    {
        if bytes.len() == 0 {
            return Ok(());
        }
        if bytes.len() > MAX_WRITE_BYTES_COUNT {
            return Err(Error::WriteBytesCount(bytes.len()));
        }
        match self.write_command(BootloaderCommand::WriteMemory) {
            Ok(_) => (),
            Err(e) => {
                return Err(e);
            },
        }
        match self.write_address(address) {
            Ok(_) => (),
            Err(e) => {
                return Err(e);
            },
        }
        match self.serial.flush() {
            Ok(_) => (),
            Err(e) => {
                return Err(e);
            },
        }
        match self.read_ack() {
            Ok(_) => (),
            Err(e) => {
                return Err(e);
            },
        }
        match self.write_counted(bytes) {
            Ok(_) => (),
            Err(e) => {
                return Err(e);
            },
        }
        match self.serial.flush() {
            Ok(_) => (),
            Err(e) => {
                return Err(e);
            },
        }
        let r = self.read_ack();
        proof {
            if r is Ok {
                assert(old(self).pending().skip(1).skip(1).skip(1) =~= old(self).pending().skip(
                    3,
                ));
            }
            if old(self).pending().len() >= 2 {
                assert(old(self).pending().skip(1)[0] == old(self).pending()[1]);
            }
            if old(self).pending().len() >= 3 {
                assert(old(self).pending().skip(1).skip(1)[0] == old(self).pending()[2]);
            }
            assert(old(self).sent() + command_frame(BootloaderCommand::WriteMemory)
                + checksummed_block(be32_bytes(address)) + counted_block(bytes@) =~= old(
                self,
            ).sent() + (command_frame(BootloaderCommand::WriteMemory) + checksummed_block(
                be32_bytes(address),
            ) + counted_block(bytes@)));
        }
        r
    }

    /// Reads `buf.len()` bytes of memory starting at `address` into `buf`.
    ///
    /// Succeeds as a no-op on an empty buffer; rejects more bytes than a
    /// single command can request without touching the stream. The buffer is
    /// only overwritten on success.
    pub fn read_memory(&mut self, address: u32, buf: &mut Vec<u8>) -> (r: Result<(), Error>)
        ensures
            old(buf)@.len() == 0 ==> r is Ok && io_unchanged(*old(self), *final(self)),
            old(buf)@.len() > MAX_READ_BYTES_COUNT ==> r == Err::<(), Error>(
                Error::WriteBytesCount(old(buf)@.len() as usize),
            ) && io_unchanged(*old(self), *final(self)),
            r is Ok && old(buf)@.len() > 0 ==> old(buf)@.len() <= MAX_READ_BYTES_COUNT && old(
                self,
            ).pending().len() >= old(buf)@.len() + 3 && old(self).pending()[0] == ACK_BYTE && old(
                self,
            ).pending()[1] == ACK_BYTE && old(self).pending()[2 + old(buf)@.len() as int] == ACK_BYTE
                && final(buf)@ == old(self).pending().subrange(2, 2 + old(buf)@.len() as int) && exchanged(
                *old(self),
                *final(self),
                command_frame(BootloaderCommand::ReadMemory) + checksummed_block(
                    be32_bytes(address),
                ) + seq![
                    (old(buf)@.len() - 1) as u8,
                    complement_byte((old(buf)@.len() - 1) as u8),
                ],
                old(buf)@.len() as int + 3,
            ),
            r is Err ==> final(buf)@ == old(buf)@,
            old(self).reliable() && 1 <= old(buf)@.len() <= MAX_READ_BYTES_COUNT && old(
                self,
            ).pending().len() >= old(buf)@.len() + 3 ==> r == read_memory_result(
                old(self).pending(),
                old(buf)@.len() as int,
            ),
    {
        let n = buf.len();
        if n == 0 {
            return Ok(());
        }
        if n > MAX_READ_BYTES_COUNT {
            return Err(Error::WriteBytesCount(n));
        }
        match self.write_command(BootloaderCommand::ReadMemory) {
            Ok(_) => (),
            Err(e) => {
                return Err(e);
            },
        }
        match self.write_address(address) {
            Ok(_) => (),
            Err(e) => {
                return Err(e);
            },
        }
        match self.serial.flush() {
            Ok(_) => (),
            Err(e) => {
                return Err(e);
            },
        }
        match self.read_ack() {
            Ok(_) => (),
            Err(e) => {
                return Err(e);
            },
        }
        let n1 = (n - 1) as u8;
        let count_frame = [n1, !n1];
        match self.serial.write_all(count_frame.as_slice()) {
            Ok(_) => (),
            Err(e) => {
                return Err(e);
            },
        }
        match self.serial.flush() {
            Ok(_) => (),
            Err(e) => {
                return Err(e);
            },
        }
        let data = match self.serial.read_exact(n) {
            Ok(v) => v,
            Err(e) => {
                return Err(e);
            },
        };
        match self.read_ack() {
            Ok(_) => (),
            Err(e) => {
                return Err(e);
            },
        }
        proof {
            let p = old(self).pending();
            assert(p.skip(1).skip(1).skip(n as int).skip(1) =~= p.skip(n as int + 3));
            assert(p.skip(1)[0] == p[1]);
            assert(p.skip(1).skip(1).take(n as int) =~= p.subrange(2, 2 + n as int));
            assert(p.skip(1).skip(1).skip(n as int)[0] == p[2 + n as int]);
            assert(count_frame@ =~= seq![n1, complement_byte(n1)]);
            assert(old(self).sent() + command_frame(BootloaderCommand::ReadMemory)
                + checksummed_block(be32_bytes(address)) + count_frame@ =~= old(self).sent() + (
            command_frame(BootloaderCommand::ReadMemory) + checksummed_block(be32_bytes(address))
                + seq![n1, complement_byte(n1)]));
        }
        *buf = data;
        Ok(())
    }

    /// Writes the four big-endian address bytes followed by their checksum.
    fn write_address(&mut self, address: u32) -> (r: Result<(), Error>)
        ensures
            r is Ok ==> emitted(*old(self), *final(self), checksummed_block(be32_bytes(address))),
            old(self).reliable() ==> r is Ok,
    {
        let ab = be32_encode(address);
        let mut buf: Vec<u8> = Vec::new();
        buf.push(ab[0]);
        buf.push(ab[1]);
        buf.push(ab[2]);
        buf.push(ab[3]);
        proof {
            assert(buf@ =~= be32_bytes(address));
        }
        self.write_checksummed(&buf)
    }
}

/// The outcome of `read_memory` of `n` bytes on pending input `p`: two
/// acknowledgments, `n` data bytes, and a trailing acknowledgment.
pub open spec fn read_memory_result(p: Seq<u8>, n: int) -> Result<(), Error>
    recommends
        p.len() >= n + 3,
{
    if p[0] != ACK_BYTE {
        ack_result(p[0])
    } else if p[1] != ACK_BYTE {
        ack_result(p[1])
    } else {
        ack_result(p[2 + n])
    }
}

/// Whether a command list contains a given command.
pub fn has_command(cmds: &Vec<BootloaderCommand>, cmd: BootloaderCommand) -> (r: bool)
    ensures
        r == cmds@.contains(cmd),
{
    let mut i: usize = 0;
    while i < cmds.len()
        invariant
            i <= cmds@.len(),
            forall|j: int| 0 <= j < i ==> cmds@[j] != cmd,
        decreases cmds@.len() - i,
    {
        if cmds[i] == cmd {
            return true;
        }
        i = i + 1;
    }
    false
}

/// Appends every byte of a slice to a vector.
fn push_all(dst: &mut Vec<u8>, src: &[u8])
    ensures
        final(dst)@ == old(dst)@ + src@,
{
    let mut i: usize = 0;
    while i < src.len()
        invariant
            i <= src@.len(),
            dst@ == old(dst)@ + src@.take(i as int),
        decreases src@.len() - i,
    {
        dst.push(src[i]);
        proof {
            assert(old(dst)@ + src@.take(i as int) + seq![src@[i as int]] =~= old(dst)@
                + src@.take(i + 1));
        }
        i = i + 1;
    }
    proof {
        assert(src@.take(src@.len() as int) =~= src@);
    }
}

/// Reads the 16-bit big-endian value held in a two-byte buffer.
fn be16_decode_pair(v: &Vec<u8>) -> (r: u16)
    requires
        v@.len() == 2,
    ensures
        r == be16_val(v@[0], v@[1]),
{
    crate::codec::be16_decode(v[0], v[1])
}

} // verus!
