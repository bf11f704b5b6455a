//! Splitting a response head into lines without losing the bytes after it.
use vstd::prelude::*;
use vstd::utf8::*;
use crate::bytes::{append_range, copy_range, drop_front, find_byte_from, first_from, lemma_first_from};
use crate::error::FetchError;
use crate::text::utf8_text;

verus! {

/// `\n`
pub const LF: u8 = 10;

/// `\r`
pub const CR: u8 = 13;

/// The bytes of a line that ends before index `k` of `q`: a `\r` just
/// before the `\n` is not part of it.
pub open spec fn line_bytes(q: Seq<u8>, k: int) -> Seq<u8> {
    if k > 0 && q[k - 1] == CR {
        q.subrange(0, k - 1)
    } else {
        q.subrange(0, k)
    }
}

/// Turns bytes read from a connection into lines, keeping every byte after
/// the last line returned for whoever reads next.
pub struct LineReader {
    buffer: Vec<u8>,
    offset: usize,
}

impl LineReader {
    /// The bytes that were received and are not yet part of a returned line.
    pub closed spec fn pending(&self) -> Seq<u8> {
        self.buffer@.subrange(self.offset as int, self.buffer@.len() as int)
    }

    pub closed spec fn inv(&self) -> bool {
        self.offset <= self.buffer@.len()
    }

    /// A reader whose input begins with `buffer`.
    pub fn new(buffer: Vec<u8>) -> (r: Self)
        ensures
            r.inv(),
            r.pending() == buffer@,
    {
        let r = LineReader { buffer, offset: 0 };
        assert(r.pending() =~= r.buffer@);
        r
    }

    /// Hands the reader the bytes of a further read.
    pub fn push_bytes(&mut self, bytes: &[u8])
        requires
            old(self).inv(),
        ensures
            final(self).inv(),
            final(self).pending() == old(self).pending() + bytes@,
    {
        let ghost q = self.pending();
        append_range(&mut self.buffer, bytes, 0, bytes.len());
        assert(bytes@.subrange(0, bytes@.len() as int) =~= bytes@);
        assert(self.pending() =~= q + bytes@);
    }

    /// The next complete line, or `None` when the bytes received so far do
    /// not hold a `\n` yet. A line that is not well-formed UTF-8 is an error.
    pub fn next_line(&mut self) -> (r: Result<Option<String>, FetchError>)
        requires
            old(self).inv(),
        ensures
            final(self).inv(),
            match first_from(old(self).pending(), LF, 0) {
                None => r matches Ok(None) && final(self).pending() == old(self).pending(),
                Some(k) => {
                    let line = line_bytes(old(self).pending(), k);
                    if valid_utf8(line) {
                        &&& r matches Ok(Some(t))
                        &&& t@ == decode_utf8(line)
                        &&& final(self).pending() == old(self).pending().subrange(
                            k + 1,
                            old(self).pending().len() as int,
                        )
                    } else {
                        r matches Err(FetchError::NonUtf8Content)
                    }
                },
            },
    {
        let ghost q = self.pending();
        let n = self.buffer.len();
        match find_byte_from(self.buffer.as_slice(), LF, self.offset) {
            None => {
                proof {
                    lemma_first_from(self.buffer@, LF, self.offset as int);
                    lemma_first_from(q, LF, 0);
                    if first_from(q, LF, 0) is Some {
                        let k = first_from(q, LF, 0)->0;
                        assert(self.buffer@[self.offset + k] == q[k]);
                    }
                }
                // the consumed lines are no longer needed
                let off = self.offset;
                drop_front(&mut self.buffer, off);
                self.offset = 0;
                assert(self.pending() =~= q);
                Ok(None)
            },
            Some(e) => {
                let ghost k = e - self.offset;
                proof {
                    lemma_first_from(self.buffer@, LF, self.offset as int);
                    assert(q[k] == self.buffer@[e as int]);
                    assert forall|j: int| 0 <= j < k implies #[trigger] q[j] != LF by {
                        assert(q[j] == self.buffer@[self.offset + j]);
                    }
                    crate::bytes::lemma_first_from_is(q, LF, 0, Some(k));
                }
                let mut end = e;
                if end > self.offset && self.buffer[end - 1] == CR {
                    end = end - 1;
                }
                let line = copy_range(self.buffer.as_slice(), self.offset, end);
                assert(line@ =~= line_bytes(q, k));
                match utf8_text(line.as_slice()) {
                    None => Err(FetchError::NonUtf8Content),
                    Some(t) => {
                        self.offset = e + 1;
                        assert(self.pending() =~= q.subrange(k + 1, q.len() as int));
                        Ok(Some(t))
                    },
                }
            },
        }
    }

    /// The bytes after the last line returned.
    pub fn into_remainder(self) -> (r: Vec<u8>)
        requires
            self.inv(),
        ensures
            r@ == self.pending(),
    {
        let mut buffer = self.buffer;
        drop_front(&mut buffer, self.offset);
        buffer
    }
}

} // verus!
