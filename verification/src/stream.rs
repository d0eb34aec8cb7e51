//! A byte stream held in memory: what a peer has sent, read from the front.

use vstd::prelude::*;

verus! {

/// Bytes to be read, front first.
#[derive(Debug)]
pub struct ByteStream {
    bytes: Vec<u8>,
    at: usize,
}

impl ByteStream {
    #[verifier::type_invariant]
    spec fn within(&self) -> bool {
        self.at <= self.bytes@.len()
    }

    /// The bytes not yet read.
    pub closed spec fn remaining(&self) -> Seq<u8> {
        self.bytes@.skip(self.at as int)
    }

    /// A stream that will deliver `bytes`.
    pub fn new(bytes: Vec<u8>) -> (stream: ByteStream)
        ensures
            stream.remaining() == bytes@,
    {
        let stream = ByteStream { bytes, at: 0 };
        assert(stream.remaining() =~= bytes@);
        stream
    }

    /// The number of bytes not yet read.
    pub fn len(&self) -> (n: usize)
        ensures
            n == self.remaining().len(),
    {
        proof {
            use_type_invariant(self);
        }
        self.bytes.len() - self.at
    }

    /// Reads the next byte; `None` once the stream is exhausted.
    pub fn next(&mut self) -> (byte: Option<u8>)
        ensures
            old(self).remaining().len() <= usize::MAX,
            match byte {
                Some(b) => old(self).remaining().len() > 0 && b == old(self).remaining()[0]
                    && final(self).remaining() == old(self).remaining().skip(1),
                None => old(self).remaining().len() == 0 && final(self).remaining() == old(
                    self,
                ).remaining(),
            },
    {
        proof {
            use_type_invariant(&*self);
        }
        if self.at < self.bytes.len() {
            let b = self.bytes[self.at];
            self.at = self.at + 1;
            assert(self.remaining() =~= old(self).remaining().skip(1));
            Some(b)
        } else {
            None
        }
    }
}

} // verus!
