//! The byte-stream capability a channel runs on, and an in-memory loopback
//! stream that implements it.
use vstd::prelude::*;

verus! {

/// A bidirectional stream of raw bytes with blocking reads and writes.
///
/// A stream is modelled by two sequences: the bytes that reads will deliver,
/// in order, before it ends or breaks, and the bytes written to it so far.
/// A failed call leaves the stream in a state that is not described. The
/// model's default bodies stand for an implementation written outside
/// verified code, of which nothing is proved; verified implementations
/// give their own.
pub trait ByteStream {
    /// The bytes that reads will deliver, in order, before the stream ends.
    open spec fn incoming(&self) -> Seq<u8> {
        Seq::empty()
    }

    /// Every byte written to the stream so far, in order.
    open spec fn written(&self) -> Seq<u8> {
        Seq::empty()
    }

    /// Whether writes and flushes on this stream always succeed.
    open spec fn reliable(&self) -> bool {
        false
    }

    /// Whether what is written to this stream comes back to its own reads,
    /// after the bytes already due.
    open spec fn echoes(&self) -> bool {
        false
    }

    /// Writes all of `bytes`.
    fn write_all(&mut self, bytes: &[u8]) -> (r: Result<(), ()>)
        ensures
            old(self).reliable() ==> r is Ok,
            r is Ok ==> final(self).written() == old(self).written() + bytes@,
            r is Ok ==> final(self).incoming() == if old(self).echoes() {
                old(self).incoming() + bytes@
            } else {
                old(self).incoming()
            },
            r is Ok ==> final(self).reliable() == old(self).reliable(),
            r is Ok ==> final(self).echoes() == old(self).echoes(),
    ;

    /// Pushes written bytes on to the other side.
    fn flush(&mut self) -> (r: Result<(), ()>)
        ensures
            old(self).reliable() ==> r is Ok,
            r is Ok ==> final(self).written() == old(self).written(),
            r is Ok ==> final(self).incoming() == old(self).incoming(),
            r is Ok ==> final(self).reliable() == old(self).reliable(),
            r is Ok ==> final(self).echoes() == old(self).echoes(),
    ;

    /// Reads exactly `n` bytes, waiting for them as long as the stream is
    /// open; fails when the stream ends first, never hands back fewer bytes,
    /// and writes nothing.
    fn read_exact(&mut self, n: usize) -> (r: Result<Vec<u8>, ()>)
        ensures
            r is Ok <==> n <= old(self).incoming().len(),
            r is Ok ==> r->Ok_0@ == old(self).incoming().take(n as int),
            r is Ok ==> final(self).incoming() == old(self).incoming().skip(n as int),
            final(self).written() == old(self).written(),
            final(self).reliable() == old(self).reliable(),
            final(self).echoes() == old(self).echoes(),
    ;
}

/// An in-memory loopback stream: what is written to it is read back from it,
/// in order, and reading past the last written byte ends the stream.
pub struct MemStream {
    pending: Vec<u8>,
    log: Ghost<Seq<u8>>,
}

impl View for MemStream {
    /// The bytes written and not read yet.
    type V = Seq<u8>;

    closed spec fn view(&self) -> Seq<u8> {
        self.pending@
    }
}

impl MemStream {
    /// An empty stream.
    pub fn new() -> (r: MemStream)
        ensures
            r@ == Seq::<u8>::empty(),
            r.incoming() == Seq::<u8>::empty(),
            r.written() == Seq::<u8>::empty(),
    {
        MemStream { pending: Vec::new(), log: Ghost(Seq::empty()) }
    }

    /// A stream whose reads deliver `bytes`, as if a peer had written them.
    pub fn from_bytes(bytes: Vec<u8>) -> (r: MemStream)
        ensures
            r@ == bytes@,
            r.incoming() == bytes@,
            r.written() == Seq::<u8>::empty(),
    {
        MemStream { pending: bytes, log: Ghost(Seq::empty()) }
    }

    /// The bytes not read yet.
    pub fn unread(&self) -> (r: &[u8])
        ensures
            r@ == self@,
    {
        self.pending.as_slice()
    }
}

impl ByteStream for MemStream {
    open spec fn incoming(&self) -> Seq<u8> {
        self@
    }

    closed spec fn written(&self) -> Seq<u8> {
        self.log@
    }

    open spec fn reliable(&self) -> bool {
        true
    }

    open spec fn echoes(&self) -> bool {
        true
    }

    fn write_all(&mut self, bytes: &[u8]) -> (r: Result<(), ()>)
        ensures
            r is Ok,
            final(self)@ == old(self)@ + bytes@,
    {
        let ghost start = self.pending@;
        let ghost log = self.log@;
        let mut i: usize = 0;
        while i < bytes.len()
            invariant
                i <= bytes@.len(),
                self.pending@ == start + bytes@.take(i as int),
                self.log@ == log,
            decreases bytes@.len() - i,
        {
            self.pending.push(bytes[i]);
            assert(bytes@.take(i + 1) =~= bytes@.take(i as int).push(bytes@[i as int]));
            i = i + 1;
        }
        assert(bytes@.take(i as int) =~= bytes@);
        self.log = Ghost(log + bytes@);
        Ok(())
    }

    fn flush(&mut self) -> (r: Result<(), ()>)
        ensures
            r is Ok,
            final(self)@ == old(self)@,
    {
        Ok(())
    }

    fn read_exact(&mut self, n: usize) -> (r: Result<Vec<u8>, ()>)
        ensures
            r is Err ==> final(self)@ == old(self)@,
    {
        if n > self.pending.len() {
            return Err(());
        }
        let mut head = self.pending.split_off(0);
        self.pending = head.split_off(n);
        Ok(head)
    }
}

} // verus!
