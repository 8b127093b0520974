//! In-memory byte streams: a reader with a position, and the two directions
//! of a connection.

use vstd::prelude::*;
use vstd::slice::slice_subrange;

verus! {

/// A sequence of received bytes and a position in it. Reading moves the
/// position forward; bytes that arrive later are appended at the end.
pub struct ByteReader {
    data: Vec<u8>,
    pos: usize,
}

impl ByteReader {
    /// The bytes that have not been read yet.
    pub closed spec fn remaining(&self) -> Seq<u8> {
        if self.pos <= self.data@.len() {
            self.data@.subrange(self.pos as int, self.data@.len() as int)
        } else {
            Seq::empty()
        }
    }

    /// A reader positioned at the start of `data`.
    pub fn new(data: Vec<u8>) -> (r: ByteReader)
        ensures
            r.remaining() == data@,
    {
        assert(data@.subrange(0, data@.len() as int) =~= data@);
        ByteReader { data, pos: 0 }
    }

    /// The bytes that have not been read yet.
    pub fn rest(&self) -> (s: &[u8])
        ensures
            s@ == self.remaining(),
    {
        let end = self.data.len();
        let start = if self.pos <= end {
            self.pos
        } else {
            end
        };
        let s = slice_subrange(self.data.as_slice(), start, end);
        assert(s@ =~= self.remaining());
        s
    }

    /// The number of bytes that have not been read yet.
    pub fn len(&self) -> (n: usize)
        ensures
            n == self.remaining().len(),
    {
        if self.pos <= self.data.len() {
            self.data.len() - self.pos
        } else {
            0
        }
    }

    /// Whether every byte has been read.
    pub fn is_empty(&self) -> (b: bool)
        ensures
            b == (self.remaining().len() == 0),
    {
        self.len() == 0
    }

    /// Moves the position `n` bytes forward, or to the end if fewer are left.
    pub fn skip(&mut self, n: usize)
        ensures
            n <= old(self).remaining().len() ==> final(self).remaining() == old(
                self,
            ).remaining().skip(n as int),
            n > old(self).remaining().len() ==> final(self).remaining() == Seq::<u8>::empty(),
    {
        let end = self.data.len();
        if self.pos <= end && n <= end - self.pos {
            self.pos = self.pos + n;
            assert(self.remaining() =~= old(self).remaining().skip(n as int));
        } else {
            self.pos = end;
            assert(self.remaining() =~= Seq::<u8>::empty());
            assert(old(self).remaining().len() == 0 ==> old(self).remaining().skip(0)
                =~= Seq::<u8>::empty());
        }
    }

    /// Appends bytes that have arrived at the end of the stream.
    pub fn feed(&mut self, bytes: &[u8])
        ensures
            final(self).remaining() == old(self).remaining() + bytes@,
    {
        if self.pos > self.data.len() {
            self.pos = self.data.len();
        }
        self.data.extend_from_slice(bytes);
        assert(self.remaining() =~= old(self).remaining() + bytes@);
    }
}

/// The two directions of a connection, held in memory: what has arrived and
/// not been read yet, and what has been written and not been sent yet.
pub struct Duplex {
    /// The bytes that the peer has sent.
    pub input: ByteReader,
    /// The bytes to send to the peer.
    pub output: Vec<u8>,
}

impl Duplex {
    /// A connection on which `input` has arrived and nothing has been written.
    pub fn new(input: Vec<u8>) -> (d: Duplex)
        ensures
            d.input.remaining() == input@,
            d.output@ == Seq::<u8>::empty(),
    {
        Duplex { input: ByteReader::new(input), output: Vec::new() }
    }
}

} // verus!
