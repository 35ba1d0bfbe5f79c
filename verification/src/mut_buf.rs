//! The receive buffer: an owned, growable byte region whose cursor
//! separates bytes already received (and not yet decoded) from spare
//! writable space. Decoded bytes are discarded as soon as a frame is
//! parsed, so the buffer never retains consumed data.

use crate::codec::decode;
use crate::codec::spec_decode;
use crate::codec::DecodeResult;
use crate::codec::SpecDecode;
use crate::commands::Command;
use crate::errors::ProtoError;
use vstd::prelude::*;
use vstd::slice::slice_subrange;
use vstd::slice::slice_to_vec;

verus! {

/// The receive buffer. Its view is the received, not yet decoded bytes.
pub struct MutBuf {
    buffer: Vec<u8>,
    cursor: usize,
}

impl View for MutBuf {
    type V = Seq<u8>;

    /// The bytes received and not yet decoded.
    closed spec fn view(&self) -> Seq<u8> {
        self.buffer@.take(self.cursor as int)
    }
}

impl MutBuf {
    /// The cursor never passes the end of the backing storage.
    pub closed spec fn wf(&self) -> bool {
        self.cursor <= self.buffer@.len()
    }

    /// How much spare writable space the backing storage has.
    pub closed spec fn spec_writable(&self) -> int {
        self.buffer@.len() - self.cursor
    }

    /// A fresh, empty buffer backed by `len` bytes of storage.
    pub fn new(len: usize) -> (r: Self)
        ensures
            r.wf(),
            r@ == Seq::<u8>::empty(),
            r.spec_writable() == len,
    {
        let buffer = vec![0u8; len];
        let r = MutBuf { buffer, cursor: 0 };
        proof {
            assert(r@ =~= Seq::<u8>::empty());
        }
        r
    }

    /// Drops `len` decoded bytes from the front, keeping the rest.
    pub fn discard(&mut self, len: usize)
        requires
            old(self).wf(),
            len <= old(self)@.len(),
        ensures
            final(self).wf(),
            final(self)@ == old(self)@.skip(len as int),
            final(self).spec_writable() == old(self).spec_writable(),
    {
        let tail = slice_to_vec(slice_subrange(self.buffer.as_slice(), len, self.buffer.len()));
        self.cursor = self.cursor - len;
        self.buffer = tail;
        proof {
            assert(self@ =~= old(self)@.skip(len as int));
        }
    }

    /// Whether nothing received awaits decoding.
    pub fn is_empty(&self) -> (r: bool)
        requires
            self.wf(),
        ensures
            r == (self@.len() == 0),
    {
        self.cursor == 0
    }

    /// The bytes received and not yet decoded.
    pub fn consumable(&self) -> (r: &[u8])
        requires
            self.wf(),
        ensures
            r@ == self@,
    {
        slice_subrange(self.buffer.as_slice(), 0, self.cursor)
    }

    /// How many bytes can be received before the storage must grow.
    pub fn writable(&self) -> (r: usize)
        requires
            self.wf(),
        ensures
            r == self.spec_writable(),
    {
        self.buffer.len() - self.cursor
    }

    /// The spare space an append leaves behind, given the bytes held, the
    /// spare space and the bytes added. This is the growth policy: bytes
    /// that fit strictly inside the spare space leave the storage alone;
    /// once the spare space is exhausted the storage doubles (capped at
    /// the machine limit) rather than fail, so reallocation stays
    /// logarithmic in the bytes received; a chunk too large even for the
    /// doubled storage gets exactly the room it needs.
    pub open spec fn spare_after_append(len: int, spare: int, added: int) -> int {
        let cap = len + spare;
        let need = len + added;
        let doubled = if cap <= usize::MAX / 2 {
            2 * cap
        } else {
            usize::MAX as int
        };
        if need < cap {
            cap - need
        } else if doubled >= need {
            doubled - need
        } else {
            0
        }
    }

    /// Appends received bytes behind the cursor, growing the storage by
    /// the doubling policy of `spare_after_append`.
    pub fn add_consumable(&mut self, data: &[u8])
        requires
            old(self).wf(),
            old(self)@.len() + data@.len() <= usize::MAX,
        ensures
            final(self).wf(),
            final(self)@ == old(self)@ + data@,
            final(self).spec_writable() == Self::spare_after_append(
                old(self)@.len() as int,
                old(self).spec_writable(),
                data@.len() as int,
            ),
    {
        let old_len = self.buffer.len();
        self.buffer.truncate(self.cursor);
        proof {
            assert(self.buffer@ =~= old(self)@);
        }
        let mut i: usize = 0;
        while i < data.len()
            invariant
                i <= data@.len(),
                self.buffer@ == old(self)@ + data@.take(i as int),
                self.buffer@.len() == old(self)@.len() + i,
            decreases data@.len() - i,
        {
            let b = *vstd::slice::slice_index_get(data, i);
            self.buffer.push(b);
            i = i + 1;
            proof {
                assert(data@.take(i as int) =~= data@.take(i - 1) + seq![data@[i - 1]]);
            }
        }
        proof {
            assert(data@.take(data@.len() as int) =~= data@);
        }
        let need = self.buffer.len();
        self.cursor = need;
        let doubled = if old_len <= usize::MAX / 2 {
            old_len * 2
        } else {
            usize::MAX
        };
        let target = if need > old_len {
            if doubled > need {
                doubled
            } else {
                need
            }
        } else if need == old_len {
            doubled
        } else {
            old_len
        };
        proof {
            assert(need <= target);
        }
        while self.buffer.len() < target
            invariant
                self.cursor as int == old(self)@.len() + data@.len(),
                self.cursor <= self.buffer@.len(),
                self.buffer@.len() <= target,
                self.buffer@.take(self.cursor as int) == old(self)@ + data@,
            decreases target - self.buffer@.len(),
        {
            let ghost before = self.buffer@;
            self.buffer.push(0);
            proof {
                assert(self.buffer@.take(self.cursor as int) =~= before.take(self.cursor as int));
            }
        }
        proof {
            assert(self.buffer@.len() == target);
        }
    }

    /// Attempts to parse one frame from the front of the buffer. On
    /// success the frame's bytes are discarded and the message returned;
    /// with too few bytes present, `None` asks the caller to read more;
    /// structurally invalid bytes are a framing error, never retried.
    pub fn parse_frame(&mut self) -> (r: Result<Option<Command>, ProtoError>)
        requires
            old(self).wf(),
        ensures
            final(self).wf(),
            final(self).spec_writable() == old(self).spec_writable(),
            match spec_decode(old(self)@) {
                SpecDecode::Complete(m, n) => (r matches Ok(Some(c)) && c@ == m && c.wf())
                    && final(self)@ == old(self)@.skip(n),
                SpecDecode::Incomplete => r matches Ok(None) && final(self)@ == old(self)@,
                SpecDecode::Malformed(_) => (r matches Err(e) && e == ProtoError::FramingError)
                    && final(self)@ == old(self)@,
            },
    {
        let outcome = decode(self.consumable());
        match outcome {
            DecodeResult::Complete(message, len) => {
                self.discard(len);
                Ok(Some(message))
            },
            DecodeResult::Incomplete => Ok(None),
            DecodeResult::Malformed(_) => Err(ProtoError::FramingError),
        }
    }

    /// What the end of the stream means: a peer that closed with this
    /// buffer empty ended the session cleanly (`NoMessage`); one that
    /// closed mid-frame reset the connection, a hard error.
    pub fn end_of_stream(&self) -> (r: Result<Command, ProtoError>)
        requires
            self.wf(),
        ensures
            self@.len() == 0 ==> (r matches Ok(c) && c is NoMessage),
            self@.len() > 0 ==> (r matches Err(e) && e == ProtoError::ConnectionReset),
    {
        if self.is_empty() {
            Ok(Command::NoMessage)
        } else {
            Err(ProtoError::ConnectionReset)
        }
    }
}

} // verus!
