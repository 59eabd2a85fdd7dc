//! Byte messages and responses.
//!
//! A message is an opaque byte sequence; the engine never interprets its
//! contents. On the wire a message travels as a fixed-width buffer plus an
//! explicit length, and a response is the bytes a function produced plus a
//! status word.

use vstd::prelude::*;

verus! {

/// A fixed-capacity byte message: `len` bytes of payload in a buffer of
/// `N` bytes, as it crosses an isolation boundary.
pub struct Message<const N: usize> {
    bytes: [u8; N],
    len: u32,
}

impl<const N: usize> Message<N> {
    /// The length prefix fits the buffer.
    pub closed spec fn wf(&self) -> bool {
        self.len as int <= N as int
    }

    /// The payload carried: the first `len` bytes of the buffer.
    pub closed spec fn payload(&self) -> Seq<u8> {
        self.bytes@.take(self.len as int)
    }

    /// Frame `len` bytes of `bytes` as a message; refused when the claimed
    /// length exceeds the buffer.
    pub fn new(bytes: [u8; N], len: u32) -> (r: Option<Message<N>>)
        ensures
            len as int <= N as int ==> (r matches Some(m) && m.wf() && m.payload() == bytes@.take(
                len as int,
            )),
            len as int > N as int ==> r is None,
    {
        if (len as usize) <= N {
            Some(Message { bytes, len })
        } else {
            None
        }
    }

    /// How many payload bytes the message carries.
    pub fn len(&self) -> (r: u32)
        ensures
            self.wf() ==> r as int == self.payload().len(),
    {
        self.len
    }

    /// The payload bytes, copied out.
    pub fn to_vec(&self) -> (r: Vec<u8>)
        requires
            self.wf(),
        ensures
            r@ == self.payload(),
    {
        let mut v: Vec<u8> = Vec::new();
        let mut i: usize = 0;
        while i < self.len as usize
            invariant
                self.wf(),
                i <= self.len as usize,
                v@ == self.bytes@.take(i as int),
            decreases self.len as usize - i,
        {
            v.push(self.bytes[i]);
            proof {
                assert(self.bytes@.take(i + 1) =~= self.bytes@.take(i as int).push(
                    self.bytes@[i as int],
                ));
            }
            i = i + 1;
        }
        v
    }
}

/// What an invocation produced: the response bytes copied into
/// engine-owned memory, and the backend's status word (zero on success).
pub struct Response {
    /// The response payload.
    pub data: Vec<u8>,
    /// The backend's status word; zero reports success.
    pub status: i32,
}

impl Response {
    /// The response payload as a sequence.
    pub open spec fn payload(&self) -> Seq<u8> {
        self.data@
    }
}

} // verus!
