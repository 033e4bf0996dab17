//! Flash orchestrator: drives whole device interactions — identity queries,
//! erase planning and execution, and full image flashing with optional
//! read-back verification — as sequences of session calls. Never retries:
//! retry policy belongs to the caller.

use vstd::prelude::*;

use crate::codec::{
    command_frame, counted_block, checksummed_block, complement_byte, be32_bytes,
    extended_erase_payload, BootloaderCommand, EraseCommand, Version, ACK_BYTE,
};
use crate::error::Error;
use crate::planner::{page_count_spec, pages_for_range, start_page_spec};
use crate::session::{
    decode_commands, erase_choice, erase_command_result, gc_consumed, gc_count, gc_window,
    get_commands_result, get_id_result, get_version_result, exchanged, io_unchanged,
    three_ack_result, two_ack_result, AN3155,
};
use crate::stream::ByteStream;
use crate::{DEFAULT_PAGE_SIZE, DEFAULT_START_ADDRESS, MAX_ERASE_PAGE_COUNT, MAX_WRITE_BYTES_COUNT};

verus! {

/// Everything the identity commands report about a device.
pub struct Info {
    /// Bootloader version.
    pub version: Version,
    /// The commands the bootloader supports.
    pub commands: Vec<BootloaderCommand>,
    /// Product ID.
    pub product_id: u16,
}

/// The outcome of `get_info` on pending input `p`: a `get_version`, a
/// `get_commands` and a `get_id` exchange, in that order, stopping at the
/// first failure.
pub open spec fn get_info_result(p: Seq<u8>) -> Result<
    (Version, Seq<BootloaderCommand>, u16),
    Error,
> {
    match get_version_result(p) {
        Err(e) => Err(e),
        Ok(v) => match get_commands_result(p.skip(5)) {
            Err(e) => Err(e),
            Ok(cmds) => match get_id_result(p.skip(5).skip(gc_consumed(p.skip(5)))) {
                Err(e) => Err(e),
                Ok(id) => Ok((v, cmds, id)),
            },
        },
    }
}

/// Whether pending input `p` is long enough that every read of a `get_info`
/// call is answered.
pub open spec fn get_info_enough(p: Seq<u8>) -> bool {
    &&& p.len() >= 5
    &&& (get_version_result(p) is Ok ==> p.skip(5).len() >= gc_consumed(p.skip(5)))
    &&& (get_version_result(p) is Ok && get_commands_result(p.skip(5)) is Ok ==> p.skip(5).skip(
        gc_consumed(p.skip(5)),
    ).len() >= 5)
}

/// How many pending bytes a successful `get_info` consumes.
pub open spec fn get_info_consumed(p: Seq<u8>) -> int {
    5 + gc_consumed(p.skip(5)) + 5
}

/// Queries bootloader version, capability list and product ID, in that
/// order.
pub fn get_info<S: ByteStream>(an3155: &mut AN3155<S>) -> (r: Result<Info, Error>)
    ensures
        r matches Ok(info) ==> get_info_result(old(an3155).pending()) == Ok::<_, Error>(
            (info.version, info.commands@, info.product_id),
        ) && exchanged(
            *old(an3155),
            *final(an3155),
            command_frame(BootloaderCommand::GetVersion) + command_frame(BootloaderCommand::Get)
                + command_frame(BootloaderCommand::GetId),
            get_info_consumed(old(an3155).pending()),
        ),
        old(an3155).reliable() && get_info_enough(old(an3155).pending()) ==> (get_info_result(
            old(an3155).pending(),
        ) matches Ok(t) ==> r matches Ok(info) && info.version == t.0 && info.commands@ == t.1
            && info.product_id == t.2) && (get_info_result(old(an3155).pending()) matches Err(e)
            ==> r matches Err(e2) && e2 == e),
{
    let ghost p = old(an3155).pending();
    let version = match an3155.get_version() {
        Ok(v) => v,
        Err(e) => {
            return Err(e);
        },
    };
    let commands = match an3155.get_commands() {
        Ok(v) => v,
        Err(e) => {
            return Err(e);
        },
    };
    let product_id = match an3155.get_id() {
        Ok(v) => v,
        Err(e) => {
            return Err(e);
        },
    };
    proof {
        assert(p.skip(5).skip(gc_consumed(p.skip(5))).skip(5) =~= p.skip(get_info_consumed(p)));
        assert(old(an3155).sent() + command_frame(BootloaderCommand::GetVersion) + command_frame(
            BootloaderCommand::Get,
        ) + command_frame(BootloaderCommand::GetId) =~= old(an3155).sent() + (command_frame(
            BootloaderCommand::GetVersion,
        ) + command_frame(BootloaderCommand::Get) + command_frame(BootloaderCommand::GetId)));
    }
    Ok(Info { version, commands, product_id })
}

/// Whether the first `k` pending bytes are all acknowledgments.
pub open spec fn all_acks(p: Seq<u8>, k: int) -> bool {
    &&& p.len() >= k
    &&& forall|i: int| 0 <= i < k ==> p[i] == ACK_BYTE
}

/// The page range as one-byte page indices, as the standard erase command
/// sends them.
pub open spec fn range_pages_u8(start: int, count: int) -> Seq<u8> {
    Seq::new(count as nat, |i: int| (start + i) as u8)
}

/// The page range as two-byte page indices, as the extended erase command
/// sends them.
pub open spec fn range_pages_u16(start: int, count: int) -> Seq<u16> {
    Seq::new(count as nat, |i: int| (start + i) as u16)
}

/// How many pages the next standard erase call takes: a full command's worth,
/// or all that remain.
pub open spec fn erase_chunk_len(len: int) -> int {
    if len > 255 {
        255
    } else {
        len
    }
}

/// Every frame a chunked standard erase of `pages` sends: one erase command
/// per group of at most 255 pages, in order.
pub open spec fn standard_erase_frames(pages: Seq<u8>) -> Seq<u8>
    decreases pages.len(),
{
    if pages.len() == 0 {
        Seq::empty()
    } else {
        let k = erase_chunk_len(pages.len() as int);
        (command_frame(BootloaderCommand::Erase) + counted_block(pages.take(k)))
            + standard_erase_frames(pages.skip(k))
    }
}

/// How many pending bytes a successful chunked standard erase of `len` pages
/// consumes: two acknowledgments per command.
pub open spec fn standard_erase_consumed(len: int) -> int
    decreases len,
{
    if len <= 0 {
        0
    } else {
        2 + standard_erase_consumed(len - erase_chunk_len(len))
    }
}

/// The first page index of an ascending contiguous range that exceeds `max`.
pub open spec fn first_oversize(start: int, max: int) -> u32 {
    if start > max {
        start as u32
    } else {
        (max + 1) as u32
    }
}

/// A chunked standard erase consumes a non-negative number of bytes.
pub proof fn lemma_standard_erase_consumed_nonneg(len: int)
    ensures
        standard_erase_consumed(len) >= 0,
    decreases len,
{
    if len > 0 {
        lemma_standard_erase_consumed_nonneg(len - erase_chunk_len(len));
    }
}

/// Erases the given pages with standard erase commands, at most 255 pages
/// per command.
fn erase_standard_chunked<S: ByteStream>(an3155: &mut AN3155<S>, pages: &Vec<u8>) -> (r: Result<
    (),
    Error,
>)
    requires
        pages@.len() >= 1,
    ensures
        r is Ok ==> old(an3155).pending().len() >= standard_erase_consumed(pages@.len() as int)
            && exchanged(
            *old(an3155),
            *final(an3155),
            standard_erase_frames(pages@),
            standard_erase_consumed(pages@.len() as int),
        ),
        old(an3155).reliable() && all_acks(
            old(an3155).pending(),
            standard_erase_consumed(pages@.len() as int),
        ) ==> r is Ok,
{
    let ghost total = standard_erase_consumed(pages@.len() as int);
    let mut off: usize = 0;
    let ghost mut done: int = 0;
    proof {
        assert(pages@.skip(0) =~= pages@);
        assert(old(an3155).pending().skip(0) =~= old(an3155).pending());
    }
    #[verifier::loop_isolation(false)]
    while off < pages.len()
        invariant
            off <= pages@.len(),
            an3155.reliable() == old(an3155).reliable(),
            old(an3155).sent() + standard_erase_frames(pages@) == an3155.sent()
                + standard_erase_frames(pages@.skip(off as int)),
            an3155.pending() == old(an3155).pending().skip(done),
            0 <= done <= old(an3155).pending().len(),
            done + standard_erase_consumed(pages@.len() - off) == total,
            old(an3155).reliable() && all_acks(old(an3155).pending(), total) ==> all_acks(
                an3155.pending(),
                standard_erase_consumed(pages@.len() - off),
            ),
        decreases pages@.len() - off,
    {
        let rem = pages.len() - off;
        let k = if rem > MAX_ERASE_PAGE_COUNT {
            MAX_ERASE_PAGE_COUNT
        } else {
            rem
        };
        let chunk = copy_range(pages.as_slice(), off, off + k);
        let ghost q = an3155.pending();
        let ghost qs = an3155.sent();
        proof {
            assert(chunk@ =~= pages@.skip(off as int).take(k as int));
            assert(standard_erase_consumed(pages@.len() - off) == 2 + standard_erase_consumed(
                pages@.len() - off - k,
            ));
            lemma_standard_erase_consumed_nonneg(pages@.len() - off - k);
            if old(an3155).reliable() && all_acks(old(an3155).pending(), total) {
                assert(done + 2 <= total);
                assert(q[0] == old(an3155).pending()[done]);
                assert(q[1] == old(an3155).pending()[done + 1]);
                assert(q[0] == ACK_BYTE);
                assert(q[1] == ACK_BYTE);
                assert(two_ack_result(q) == Ok::<(), Error>(()));
            }
        }
        match an3155.standard_erase(chunk.as_slice()) {
            Ok(_) => (),
            Err(e) => {
                return Err(e);
            },
        }
        proof {
            assert(q.len() >= 2);
            assert(done + 2 <= old(an3155).pending().len());
            assert(standard_erase_frames(pages@.skip(off as int)) == (command_frame(
                BootloaderCommand::Erase,
            ) + counted_block(chunk@)) + standard_erase_frames(pages@.skip(off as int).skip(
                k as int,
            )));
            assert(pages@.skip(off as int).skip(k as int) =~= pages@.skip(off + k));
            assert(qs + ((command_frame(BootloaderCommand::Erase) + counted_block(chunk@))
                + standard_erase_frames(pages@.skip(off + k))) =~= (qs + (command_frame(
                BootloaderCommand::Erase,
            ) + counted_block(chunk@))) + standard_erase_frames(pages@.skip(off + k)));
            assert(old(an3155).pending().skip(done).skip(2) =~= old(an3155).pending().skip(
                done + 2,
            ));
            if old(an3155).reliable() && all_acks(old(an3155).pending(), total) {
                let m = standard_erase_consumed(pages@.len() - off);
                assert forall|i: int| 0 <= i < m - 2 implies q.skip(2)[i] == ACK_BYTE by {
                    assert(q.skip(2)[i] == q[i + 2]);
                }
                assert(all_acks(q.skip(2), m - 2));
            }
            done = done + 2;
        }
        off = off + k;
    }
    proof {
        assert(pages@.skip(pages@.len() as int) =~= Seq::<u8>::empty());
        assert(an3155.sent() + Seq::<u8>::empty() =~= an3155.sent());
        assert(done == total);
    }
    Ok(())
}

/// Computes the page range `length` bytes at `address` touch (relative to the
/// default flash base and page size), then erases those pages with whichever
/// erase command the device reports it supports.
///
/// Succeeds as a no-op when the range covers no pages. A page index the
/// active erase command cannot express fails the whole plan.
pub fn erase<S: ByteStream>(an3155: &mut AN3155<S>, address: u32, length: u32) -> (r: Result<
    (),
    Error,
>)
    requires
        address >= DEFAULT_START_ADDRESS,
    ensures
        page_count_spec(DEFAULT_PAGE_SIZE as u32, length) == 0 ==> r is Ok && io_unchanged(
            *old(an3155),
            *final(an3155),
        ),
        r is Ok && page_count_spec(DEFAULT_PAGE_SIZE as u32, length) > 0 ==> (erase_plan_ok(
            old(an3155).pending(),
            start_page_spec(DEFAULT_START_ADDRESS, DEFAULT_PAGE_SIZE as u32, address),
            page_count_spec(DEFAULT_PAGE_SIZE as u32, length),
            *old(an3155),
            *final(an3155),
        )),
        old(an3155).reliable() && page_count_spec(DEFAULT_PAGE_SIZE as u32, length) > 0 && old(
            an3155,
        ).pending().len() >= gc_consumed(old(an3155).pending()) ==> erase_outcome_ok(
            old(an3155).pending(),
            start_page_spec(DEFAULT_START_ADDRESS, DEFAULT_PAGE_SIZE as u32, address),
            page_count_spec(DEFAULT_PAGE_SIZE as u32, length),
            r,
        ),
{
    let ghost p = old(an3155).pending();
    let ghost sp = start_page_spec(DEFAULT_START_ADDRESS, DEFAULT_PAGE_SIZE as u32, address);
    let ghost pc = page_count_spec(DEFAULT_PAGE_SIZE as u32, length);
    proof {
        vstd::arithmetic::div_mod::lemma_div_is_ordered(
            (address - DEFAULT_START_ADDRESS) as int,
            0xFFFF_FFFF - DEFAULT_START_ADDRESS,
            128,
        );
        vstd::arithmetic::div_mod::lemma_div_is_ordered(
            length + 127,
            0xFFFF_FFFFu32 + 127,
            128,
        );
        assert(sp + pc <= u32::MAX);
    }
    let pages = pages_for_range(
        DEFAULT_START_ADDRESS,
        DEFAULT_PAGE_SIZE as u32,
        address,
        length,
    );
    if pages.len() == 0 {
        return Ok(());
    }
    let command = match an3155.get_erase_command() {
        Ok(c) => c,
        Err(e) => {
            return Err(e);
        },
    };
    match command {
        EraseCommand::Erase => {
            let mut small: Vec<u8> = Vec::new();
            let mut i: usize = 0;
            #[verifier::loop_isolation(false)]
            while i < pages.len()
                invariant
                    i <= pages@.len(),
                    small@ =~= range_pages_u8(sp, i as int),
                    forall|j: int| 0 <= j < i ==> pages@[j] <= 255,
                decreases pages@.len() - i,
            {
                let pg = pages[i];
                if pg > 255 {
                    proof {
                        assert(pg == sp + i);
                        if sp > 255 {
                            if i > 0 {
                                assert(pages@[0] == sp);
                                assert(false);
                            }
                        } else {
                            assert(i > 0);
                            assert(pages@[i - 1] == sp + i - 1);
                            assert(sp + i - 1 <= 255);
                        }
                        assert(pg == first_oversize(sp, 255));
                    }
                    return Err(Error::PageOutOfRange(pg));
                }
                small.push(pg as u8);
                proof {
                    assert(small@ =~= range_pages_u8(sp, i + 1));
                }
                i = i + 1;
            }
            proof {
                assert(small@.len() == pc);
                assert(pages@[pc - 1] == sp + pc - 1);
                assert(sp + pc <= 256);
            }
            let ghost mid = *an3155;
            let r = erase_standard_chunked(an3155, &small);
            proof {
                if r is Ok {
                    lemma_standard_erase_consumed_nonneg(pc);
                    assert(p.len() >= gc_consumed(p));
                    assert(mid.pending() == p.skip(gc_consumed(p)));
                    assert(mid.pending().len() == p.len() - gc_consumed(p));
                    assert(gc_consumed(p) + standard_erase_consumed(pc) <= p.len());
                    assert(p.skip(gc_consumed(p)).skip(standard_erase_consumed(pc)) =~= p.skip(
                        gc_consumed(p) + standard_erase_consumed(pc),
                    ));
                    assert(old(an3155).sent() + command_frame(BootloaderCommand::Get)
                        + standard_erase_frames(small@) =~= old(an3155).sent() + (command_frame(
                        BootloaderCommand::Get,
                    ) + standard_erase_frames(small@)));
                }
            }
            r
        },
        EraseCommand::ExtendedErase => {
            let mut wide: Vec<u16> = Vec::new();
            let mut i: usize = 0;
            #[verifier::loop_isolation(false)]
            while i < pages.len()
                invariant
                    i <= pages@.len(),
                    wide@ =~= range_pages_u16(sp, i as int),
                    forall|j: int| 0 <= j < i ==> pages@[j] <= 0xFFFF,
                decreases pages@.len() - i,
            {
                let pg = pages[i];
                if pg > 0xFFFF {
                    proof {
                        assert(pg == sp + i);
                        if sp > 0xFFFF {
                            if i > 0 {
                                assert(pages@[0] == sp);
                                assert(false);
                            }
                        } else {
                            assert(i > 0);
                            assert(pages@[i - 1] == sp + i - 1);
                            assert(sp + i - 1 <= 0xFFFF);
                        }
                        assert(pg == first_oversize(sp, 0xFFFF));
                    }
                    return Err(Error::PageOutOfRange(pg));
                }
                wide.push(pg as u16);
                proof {
                    assert(wide@ =~= range_pages_u16(sp, i + 1));
                }
                i = i + 1;
            }
            proof {
                assert(wide@.len() == pc);
                assert(pages@[pc - 1] == sp + pc - 1);
                assert(sp + pc <= 0x1_0000);
            }
            if wide.len() > 0xFFFF {
                return Err(Error::ErasePageCount(wide.len()));
            }
            let ghost mid = *an3155;
            let r = an3155.extended_erase(wide.as_slice());
            proof {
                if r is Ok {
                    assert(p.skip(gc_consumed(p)).skip(2) =~= p.skip(gc_consumed(p) + 2));
                    assert(old(an3155).sent() + command_frame(BootloaderCommand::Get)
                        + (command_frame(BootloaderCommand::ExtendedErase)
                        + extended_erase_payload(wide@)) =~= old(an3155).sent() + (command_frame(
                        BootloaderCommand::Get,
                    ) + (command_frame(BootloaderCommand::ExtendedErase) + extended_erase_payload(
                        wide@,
                    ))));
                }
            }
            r
        },
    }
}

/// What a successful erase did to the stream, given the capability list the
/// device reported: the `Get` exchange followed by the frames of whichever
/// erase command was selected.
pub open spec fn erase_plan_ok<S: ByteStream>(
    p: Seq<u8>,
    sp: int,
    pc: int,
    pre: AN3155<S>,
    post: AN3155<S>,
) -> bool {
    &&& p.len() >= gc_consumed(p)
    &&& p[0] == ACK_BYTE
    &&& p[3 + gc_count(p)] == ACK_BYTE
    &&& decode_commands(gc_window(p)) is Ok
    &&& (erase_choice(decode_commands(gc_window(p))->Ok_0) matches Ok(cmd) && (match cmd {
        EraseCommand::Erase => sp + pc <= 256 && exchanged(
            pre,
            post,
            command_frame(BootloaderCommand::Get) + standard_erase_frames(range_pages_u8(sp, pc)),
            gc_consumed(p) + standard_erase_consumed(pc),
        ),
        EraseCommand::ExtendedErase => sp + pc <= 0x1_0000 && pc <= 0xFFFF && exchanged(
            pre,
            post,
            command_frame(BootloaderCommand::Get) + (command_frame(BootloaderCommand::ExtendedErase)
                + extended_erase_payload(range_pages_u16(sp, pc))),
            gc_consumed(p) + 2,
        ),
    }))
}

/// The result an erase must deliver on a reliable stream, for every shape of
/// pending input: capability-query failures pass through, a page the selected
/// command cannot express is rejected, and a fully acknowledged plan
/// succeeds.
pub open spec fn erase_outcome_ok(p: Seq<u8>, sp: int, pc: int, r: Result<(), Error>) -> bool {
    &&& (erase_command_result(p) matches Err(e) ==> r == Err::<(), Error>(e))
    &&& (erase_command_result(p) == Ok::<EraseCommand, Error>(EraseCommand::Erase) ==> {
        &&& (sp + pc > 256 ==> r == Err::<(), Error>(
            Error::PageOutOfRange(first_oversize(sp, 255)),
        ))
        &&& (sp + pc <= 256 && all_acks(p.skip(gc_consumed(p)), standard_erase_consumed(pc)) ==> r
            is Ok)
    })
    &&& (erase_command_result(p) == Ok::<EraseCommand, Error>(EraseCommand::ExtendedErase) ==> {
        &&& (sp + pc > 0x1_0000 ==> r == Err::<(), Error>(
            Error::PageOutOfRange(first_oversize(sp, 0xFFFF)),
        ))
        &&& (sp + pc <= 0x1_0000 && pc > 0xFFFF ==> r == Err::<(), Error>(
            Error::ErasePageCount(pc as usize),
        ))
        &&& (sp + pc <= 0x1_0000 && pc <= 0xFFFF && all_acks(p.skip(gc_consumed(p)), 2) ==> r
            is Ok)
    })
}

/// How many bytes the next write-memory call takes: a full command's worth,
/// or all that remain.
pub open spec fn flash_chunk_len(len: int) -> int {
    if len > 256 {
        256
    } else {
        len
    }
}

/// The frames one flashed chunk sends: a write-memory exchange and, when
/// verifying, a read-memory exchange for the same address and length.
pub open spec fn chunk_frames(addr: u32, chunk: Seq<u8>, verify: bool) -> Seq<u8> {
    (command_frame(BootloaderCommand::WriteMemory) + checksummed_block(be32_bytes(addr))
        + counted_block(chunk)) + (if verify {
        command_frame(BootloaderCommand::ReadMemory) + checksummed_block(be32_bytes(addr)) + seq![
            (chunk.len() - 1) as u8,
            complement_byte((chunk.len() - 1) as u8),
        ]
    } else {
        Seq::<u8>::empty()
    })
}

/// How many pending bytes one flashed chunk of `k` bytes consumes: three
/// acknowledgments for the write and, when verifying, the echoed data and
/// three more for the read.
pub open spec fn chunk_consumed(k: int, verify: bool) -> int {
    3 + (if verify {
        k + 3
    } else {
        0
    })
}

/// Whether pending input `p` acknowledges every step of one flashed chunk
/// and, when verifying, echoes it back exactly.
pub open spec fn chunk_input_ok(p: Seq<u8>, chunk: Seq<u8>, verify: bool) -> bool {
    &&& p.len() >= chunk_consumed(chunk.len() as int, verify)
    &&& p[0] == ACK_BYTE
    &&& p[1] == ACK_BYTE
    &&& p[2] == ACK_BYTE
    &&& (verify ==> p[3] == ACK_BYTE && p[4] == ACK_BYTE && p.subrange(
        5,
        5 + chunk.len() as int,
    ) == chunk && p[5 + chunk.len() as int] == ACK_BYTE)
}

/// Every frame a flash of `data` to `addr` sends, chunk by chunk.
pub open spec fn flash_frames(addr: int, data: Seq<u8>, verify: bool) -> Seq<u8>
    decreases data.len(),
{
    if data.len() == 0 {
        Seq::empty()
    } else {
        let k = flash_chunk_len(data.len() as int);
        chunk_frames(addr as u32, data.take(k), verify) + flash_frames(
            addr + 256,
            data.skip(k),
            verify,
        )
    }
}

/// How many pending bytes a successful flash of `len` bytes consumes.
pub open spec fn flash_consumed(len: int, verify: bool) -> int
    decreases len,
{
    if len <= 0 {
        0
    } else {
        let k = flash_chunk_len(len);
        chunk_consumed(k, verify) + flash_consumed(len - k, verify)
    }
}

/// A flash consumes a non-negative number of bytes.
pub proof fn lemma_flash_consumed_nonneg(len: int, verify: bool)
    ensures
        flash_consumed(len, verify) >= 0,
    decreases len,
{
    if len > 0 {
        lemma_flash_consumed_nonneg(len - flash_chunk_len(len), verify);
    }
}

/// Whether pending input `p` acknowledges every step of a flash of `data`
/// and, when verifying, echoes each chunk back exactly.
pub open spec fn flash_input_ok(p: Seq<u8>, data: Seq<u8>, verify: bool) -> bool
    decreases data.len(),
{
    if data.len() == 0 {
        true
    } else {
        let k = flash_chunk_len(data.len() as int);
        &&& chunk_input_ok(p, data.take(k), verify)
        &&& flash_input_ok(p.skip(chunk_consumed(k, verify)), data.skip(k), verify)
    }
}

/// Writes one chunk and, when verifying, reads it back and compares it byte
/// for byte; a difference aborts with its offset within the whole image,
/// `image_off` bytes before this chunk.
fn flash_chunk<S: ByteStream>(
    an3155: &mut AN3155<S>,
    addr: u32,
    chunk: &Vec<u8>,
    image_off: usize,
    skip_verification: bool,
) -> (r: Result<(), Error>)
    requires
        1 <= chunk@.len() <= 256,
        image_off + chunk@.len() <= usize::MAX,
    ensures
        r is Ok ==> chunk_input_ok(old(an3155).pending(), chunk@, !skip_verification)
            && exchanged(
            *old(an3155),
            *final(an3155),
            chunk_frames(addr, chunk@, !skip_verification),
            chunk_consumed(chunk@.len() as int, !skip_verification),
        ),
        old(an3155).reliable() && chunk_input_ok(
            old(an3155).pending(),
            chunk@,
            !skip_verification,
        ) ==> r is Ok,
{
    let ghost v = !skip_verification;
    let ghost q = old(an3155).pending();
    let ghost qs = old(an3155).sent();
    let k = chunk.len();
    proof {
        if old(an3155).reliable() && chunk_input_ok(q, chunk@, v) {
            assert(three_ack_result(q) == Ok::<(), Error>(()));
        }
    }
    match an3155.write_memory(addr, chunk.as_slice()) {
        Ok(_) => (),
        Err(e) => {
            return Err(e);
        },
    }
    if !skip_verification {
        proof {
            if old(an3155).reliable() && chunk_input_ok(q, chunk@, v) {
                assert(q.skip(3)[0] == q[3]);
                assert(q.skip(3)[1] == q[4]);
                assert(q.skip(3)[2 + k] == q[5 + k]);
                assert(q.skip(3).len() == q.len() - 3);
                assert(crate::session::read_memory_result(q.skip(3), k as int) == Ok::<
                    (),
                    Error,
                >(()));
            }
        }
        let mut readback = vec![0u8; k];
        match an3155.read_memory(addr, &mut readback) {
            Ok(_) => (),
            Err(e) => {
                return Err(e);
            },
        }
        proof {
            assert(q.skip(3).subrange(2, 2 + k as int) =~= q.subrange(5, 5 + k as int));
        }
        let mut j: usize = 0;
        #[verifier::loop_isolation(false)]
        while j < k
            invariant
                j <= k,
                forall|m: int| 0 <= m < j ==> chunk@[m] == readback@[m],
            decreases k - j,
        {
            if chunk[j] != readback[j] {
                proof {
                    if old(an3155).reliable() && chunk_input_ok(q, chunk@, v) {
                        assert(readback@[j as int] == q.subrange(5, 5 + k as int)[j as int]);
                        assert(false);
                    }
                }
                return Err(Error::Verification(image_off + j));
            }
            j = j + 1;
        }
        proof {
            assert(readback@ =~= chunk@);
            assert(q.skip(3).skip(k + 3) =~= q.skip(chunk_consumed(k as int, v)));
            assert(qs + (command_frame(BootloaderCommand::WriteMemory) + checksummed_block(
                be32_bytes(addr),
            ) + counted_block(chunk@)) + (command_frame(BootloaderCommand::ReadMemory)
                + checksummed_block(be32_bytes(addr)) + seq![
                (k - 1) as u8,
                complement_byte((k - 1) as u8),
            ]) =~= qs + chunk_frames(addr, chunk@, v));
        }
    } else {
        proof {
            assert(qs + (command_frame(BootloaderCommand::WriteMemory) + checksummed_block(
                be32_bytes(addr),
            ) + counted_block(chunk@)) =~= qs + chunk_frames(addr, chunk@, v));
        }
    }
    Ok(())
}

/// Flashes a firmware image: writes `bytes` to memory starting at `address`
/// in chunks of at most 256 bytes and, unless `skip_verification` is set,
/// reads each chunk back immediately and compares it byte for byte. The
/// first difference aborts the flash with its offset within the image.
///
/// Erasing is a separate step: callers erase the target range first.
pub fn flash<S: ByteStream>(
    an3155: &mut AN3155<S>,
    address: u32,
    bytes: &[u8],
    skip_verification: bool,
) -> (r: Result<(), Error>)
    requires
        address + bytes@.len() <= 0x1_0000_0000,
    ensures
        bytes@.len() == 0 ==> r is Ok && io_unchanged(*old(an3155), *final(an3155)),
        r is Ok ==> flash_input_ok(old(an3155).pending(), bytes@, !skip_verification)
            && exchanged(
            *old(an3155),
            *final(an3155),
            flash_frames(address as int, bytes@, !skip_verification),
            flash_consumed(bytes@.len() as int, !skip_verification),
        ),
        old(an3155).reliable() && flash_input_ok(
            old(an3155).pending(),
            bytes@,
            !skip_verification,
        ) ==> r is Ok,
{
    let ghost p = old(an3155).pending();
    let ghost v = !skip_verification;
    let mut off: usize = 0;
    let ghost mut done: int = 0;
    proof {
        assert(bytes@.skip(0) =~= bytes@);
        assert(p.skip(0) =~= p);
    }
    #[verifier::loop_isolation(false)]
    while off < bytes.len()
        invariant
            off <= bytes@.len(),
            an3155.reliable() == old(an3155).reliable(),
            old(an3155).sent() + flash_frames(address as int, bytes@, v) == an3155.sent()
                + flash_frames(address + off, bytes@.skip(off as int), v),
            an3155.pending() == p.skip(done),
            0 <= done <= p.len(),
            done + flash_consumed(bytes@.len() - off, v) == flash_consumed(bytes@.len() as int, v),
            old(an3155).reliable() && flash_input_ok(p, bytes@, v) ==> flash_input_ok(
                an3155.pending(),
                bytes@.skip(off as int),
                v,
            ),
            flash_input_ok(an3155.pending(), bytes@.skip(off as int), v) ==> flash_input_ok(
                p,
                bytes@,
                v,
            ),
        decreases bytes@.len() - off,
    {
        let rem = bytes.len() - off;
        let k = if rem > MAX_WRITE_BYTES_COUNT {
            MAX_WRITE_BYTES_COUNT
        } else {
            rem
        };
        let chunk = copy_range(bytes, off, off + k);
        let addr = address + (off as u32);
        let ghost q = an3155.pending();
        let ghost qs = an3155.sent();
        let ghost remseq = bytes@.skip(off as int);
        let ghost c = chunk_consumed(k as int, v);
        proof {
            lemma_flash_consumed_nonneg(bytes@.len() - off - k, v);
            assert(chunk@ =~= remseq.take(k as int));
        }
        let r = flash_chunk(an3155, addr, &chunk, off, skip_verification);
        match r {
            Ok(_) => (),
            Err(e) => {
                return Err(e);
            },
        }
        proof {
            let fnext = flash_frames(addr + 256, remseq.skip(k as int), v);
            assert(flash_frames(address + off, remseq, v) == chunk_frames(addr, chunk@, v)
                + fnext);
            assert(qs + (chunk_frames(addr, chunk@, v) + fnext) =~= (qs + chunk_frames(
                addr,
                chunk@,
                v,
            )) + fnext);
            assert(remseq.skip(k as int) =~= bytes@.skip(off + k));
            if remseq.skip(k as int).len() == 0 {
                assert(flash_frames(addr + 256, remseq.skip(k as int), v) == Seq::<u8>::empty());
                assert(flash_frames(address + (off + k), bytes@.skip(off + k), v) == Seq::<
                    u8,
                >::empty());
            }
            assert(p.skip(done).skip(c) =~= p.skip(done + c));
            assert(flash_consumed(bytes@.len() - off, v) == c + flash_consumed(
                bytes@.len() - off - k,
                v,
            ));
            if old(an3155).reliable() && flash_input_ok(p, bytes@, v) {
                assert(flash_input_ok(q.skip(c), remseq.skip(k as int), v));
            }
            if flash_input_ok(an3155.pending(), bytes@.skip(off + k), v) {
                assert(flash_input_ok(q, remseq, v));
            }
            done = done + c;
        }
        off = off + k;
    }
    proof {
        assert(bytes@.skip(bytes@.len() as int) =~= Seq::<u8>::empty());
        assert(an3155.sent() + Seq::<u8>::empty() =~= an3155.sent());
        if bytes@.len() == 0 {
            assert(flash_frames(address as int, bytes@, v) == Seq::<u8>::empty());
            assert(old(an3155).sent() + Seq::<u8>::empty() =~= old(an3155).sent());
        }
    }
    Ok(())
}

/// Copies `src[from..to]` into a fresh vector.
fn copy_range(src: &[u8], from: usize, to: usize) -> (out: Vec<u8>)
    requires
        from <= to <= src@.len(),
    ensures
        out@ == src@.subrange(from as int, to as int),
{
    let mut out: Vec<u8> = Vec::new();
    let mut i: usize = from;
    while i < to
        invariant
            from <= i <= to <= src@.len(),
            out@ == src@.subrange(from as int, i as int),
        decreases to - i,
    {
        out.push(src[i]);
        proof {
            assert(src@.subrange(from as int, i as int).push(src@[i as int]) =~= src@.subrange(
                from as int,
                i + 1,
            ));
        }
        i = i + 1;
    }
    out
}

} // verus!
