use vstd::prelude::*;
use vstd::slice::slice_subrange;
use crate::error::ErrorKind;

verus! {

/// A reliable byte source over bytes held in memory: reading hands out the
/// next bytes in order and never goes back.
pub struct ByteReader<'a> {
    bytes: &'a [u8],
    pos: usize,
}

impl<'a> ByteReader<'a> {
    #[verifier::type_invariant]
    spec fn inv(self) -> bool {
        self.pos <= self.bytes@.len()
    }

    /// The bytes that have not been read yet.
    pub closed spec fn view(&self) -> Seq<u8> {
        self.bytes@.skip(self.pos as int)
    }

    /// A reader that stands at the start of `bytes`.
    pub fn new(bytes: &'a [u8]) -> (r: Self)
        ensures
            r@ == bytes@,
    {
        ByteReader { bytes, pos: 0 }
    }

    /// A second reader at the same place, to look ahead with: what it reads
    /// is not taken from this one.
    pub fn fork(&self) -> (r: Self)
        ensures
            r@ == self@,
    {
        proof {
            use_type_invariant(self);
        }
        ByteReader { bytes: self.bytes, pos: self.pos }
    }

    /// How many bytes are left.
    pub fn remaining(&self) -> (n: usize)
        ensures
            n == self@.len(),
    {
        proof {
            use_type_invariant(self);
        }
        self.bytes.len() - self.pos
    }

    /// Reads up to `max` bytes: all that is left if that is less. An empty
    /// result for `max > 0` means the source has ended.
    pub fn read(&mut self, max: usize) -> (out: &'a [u8])
        ensures
            out@ == old(self)@.take(
                if max <= old(self)@.len() {
                    max as int
                } else {
                    old(self)@.len() as int
                },
            ),
            final(self)@ == old(self)@.skip(out@.len() as int),
    {
        proof {
            use_type_invariant(&*self);
        }
        let left = self.bytes.len() - self.pos;
        let n = if max <= left { max } else { left };
        let start = self.pos;
        let out = slice_subrange(self.bytes, start, start + n);
        self.pos = start + n;
        assert(out@ =~= old(self)@.take(n as int));
        assert(self@ =~= old(self)@.skip(n as int));
        out
    }

    /// Reads exactly `n` bytes, or fails with `ShortRead` and reads nothing
    /// when fewer are left.
    pub fn read_exact(&mut self, n: usize) -> (r: Result<&'a [u8], ErrorKind>)
        ensures
            match r {
                Ok(out) => n <= old(self)@.len() && out@ == old(self)@.take(n as int)
                    && final(self)@ == old(self)@.skip(n as int),
                Err(e) => e == ErrorKind::ShortRead && old(self)@.len() < n
                    && final(self)@ == old(self)@,
            },
    {
        proof {
            use_type_invariant(&*self);
        }
        if n <= self.bytes.len() - self.pos {
            let start = self.pos;
            let out = slice_subrange(self.bytes, start, start + n);
            self.pos = start + n;
            assert(out@ =~= old(self)@.take(n as int));
            assert(self@ =~= old(self)@.skip(n as int));
            Ok(out)
        } else {
            Err(ErrorKind::ShortRead)
        }
    }
}

} // verus!
