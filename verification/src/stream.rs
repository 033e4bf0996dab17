//! The byte-stream collaborator the session talks through.
//!
//! The protocol core only needs blocking write-all, read-exactly-n and flush
//! over some transport. `ByteStream` captures that capability together with a
//! ghost model of the conversation: the bytes written so far and the bytes
//! still pending to be read. `SimStream` is an in-memory implementation used
//! to exercise the protocol deterministically without hardware; the real
//! serial port lives outside the verified core and implements the same trait.

use vstd::prelude::*;

use crate::error::Error;

verus! {

/// A blocking byte stream.
///
/// `pending()` models the bytes the peer will deliver next, `sent()` the
/// bytes written so far. A `reliable()` stream never fails on its own: writes
/// and flushes always succeed, and reads succeed whenever enough input is
/// pending. A real serial port is not reliable (it can time out or fail), so
/// nothing is promised about its calls beyond what each `Ok` result implies.
///
/// The ghost model defaults to an unreliable stream with nothing pending and
/// nothing sent, so that a transport outside the verified core can implement
/// only the three executable methods; implementations that proofs reason
/// about override the model.
pub trait ByteStream: Sized {
    /// The bytes still to be read from the stream, in order.
    open spec fn pending(&self) -> Seq<u8> {
        Seq::empty()
    }

    /// All bytes written to the stream so far, in order.
    open spec fn sent(&self) -> Seq<u8> {
        Seq::empty()
    }

    /// Whether the transport itself never fails.
    open spec fn reliable(&self) -> bool {
        false
    }

    /// Writes all of `bytes` to the stream.
    fn write_all(&mut self, bytes: &[u8]) -> (r: Result<(), Error>)
        ensures
            r is Ok ==> final(self).pending() == old(self).pending() && final(self).sent() == old(
                self,
            ).sent() + bytes@ && final(self).reliable() == old(self).reliable(),
            old(self).reliable() ==> r is Ok,
    ;

    /// Reads exactly `n` bytes from the stream.
    fn read_exact(&mut self, n: usize) -> (r: Result<Vec<u8>, Error>)
        ensures
            r matches Ok(v) ==> n <= old(self).pending().len() && v@ == old(self).pending().take(
                n as int,
            ) && final(self).pending() == old(self).pending().skip(n as int) && final(self).sent()
                == old(self).sent() && final(self).reliable() == old(self).reliable(),
            old(self).reliable() && n <= old(self).pending().len() ==> r is Ok,
    ;

    /// Forces buffered written bytes out to the peer.
    fn flush(&mut self) -> (r: Result<(), Error>)
        ensures
            r is Ok ==> final(self).pending() == old(self).pending() && final(self).sent() == old(
                self,
            ).sent() && final(self).reliable() == old(self).reliable(),
            old(self).reliable() ==> r is Ok,
    ;
}

/// An in-memory byte stream with a scripted input: reads consume the front of
/// the script, writes append to a log. It never fails except by running out
/// of scripted input.
pub struct SimStream {
    input: Vec<u8>,
    written: Vec<u8>,
}

impl SimStream {
    /// A stream that will deliver exactly `input`.
    pub fn new(input: Vec<u8>) -> (s: SimStream)
        ensures
            s.pending() == input@,
            s.sent() == Seq::<u8>::empty(),
            s.reliable(),
    {
        let s = SimStream { input, written: Vec::new() };
        proof {
            assert(s.sent() =~= Seq::<u8>::empty());
        }
        s
    }

    /// The log of every byte written so far.
    pub fn written(&self) -> (w: &Vec<u8>)
        ensures
            w@ == self.sent(),
    {
        &self.written
    }

    /// The scripted input bytes not yet consumed.
    pub fn remaining_input(&self) -> (w: &Vec<u8>)
        ensures
            w@ == self.pending(),
    {
        &self.input
    }
}

impl ByteStream for SimStream {
    closed spec fn pending(&self) -> Seq<u8> {
        self.input@
    }

    closed spec fn sent(&self) -> Seq<u8> {
        self.written@
    }

    closed spec fn reliable(&self) -> bool {
        true
    }

    fn write_all(&mut self, bytes: &[u8]) -> (r: Result<(), Error>) {
        let mut i: usize = 0;
        while i < bytes.len()
            invariant
                i <= bytes@.len(),
                self.input@ == old(self).input@,
                self.written@ == old(self).written@ + bytes@.take(i as int),
            decreases bytes@.len() - i,
        {
            self.written.push(bytes[i]);
            proof {
                assert(old(self).written@ + bytes@.take(i as int) + seq![bytes@[i as int]]
                    =~= old(self).written@ + bytes@.take(i + 1));
            }
            i = i + 1;
        }
        proof {
            assert(bytes@.take(bytes@.len() as int) =~= bytes@);
        }
        Ok(())
    }

    fn read_exact(&mut self, n: usize) -> (r: Result<Vec<u8>, Error>) {
        if n > self.input.len() {
            return Err(Error::Transport);
        }
        let mut v: Vec<u8> = Vec::new();
        let mut i: usize = 0;
        while i < n
            invariant
                i <= n <= old(self).input@.len(),
                v@ == old(self).input@.take(i as int),
                self.input@ == old(self).input@.skip(i as int),
                self.written@ == old(self).written@,
            decreases n - i,
        {
            let b = self.input.remove(0);
            v.push(b);
            proof {
                assert(old(self).input@.skip(i as int)[0] == old(self).input@[i as int]);
                assert(old(self).input@.take(i as int).push(old(self).input@[i as int])
                    =~= old(self).input@.take(i + 1));
                assert(old(self).input@.skip(i as int).subrange(
                    1,
                    old(self).input@.skip(i as int).len() as int,
                ) =~= old(self).input@.skip(i + 1));
            }
            i = i + 1;
        }
        Ok(v)
    }

    fn flush(&mut self) -> (r: Result<(), Error>) {
        Ok(())
    }
}

} // verus!
