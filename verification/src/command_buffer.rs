//! Fixed-size command frames assembled from the bytes that arrive on the
//! serial channel.
//!
//! Bytes are collected in a bounded buffer.  Each time the buffer becomes
//! full its content is handed out as one frame and the buffer starts again
//! from empty, so the buffer never holds a whole frame between two calls.

use arrayvec::ArrayVec;
use vstd::prelude::*;

verus! {

/// Number of bytes in one command frame.
pub const FRAME_LEN: usize = 128;

/// `arrayvec::ArrayVec`, a vector that keeps up to `CAP` elements in place.
/// Nothing of its inside is known here; what a buffer holds is spoken of
/// through [`buffered`].
#[verifier::external_type_specification]
#[verifier::external_body]
#[verifier::reject_recursive_types(T)]
pub struct ExArrayVec<T, const CAP: usize>(ArrayVec<T, CAP>);

/// The bytes that a frame buffer holds, oldest first.  The functions below
/// say of each `ArrayVec` method used what it does to these bytes.
pub uninterp spec fn buffered(buffer: ArrayVec<u8, 128>) -> Seq<u8>;

/// `ArrayVec::new`: the fresh buffer holds nothing.
#[verifier::external_body]
fn buffer_new() -> (buffer: ArrayVec<u8, 128>)
    ensures
        buffered(buffer) == Seq::<u8>::empty(),
{
    ArrayVec::new()
}

/// `ArrayVec::len`: the number of bytes held.
#[verifier::external_body]
fn buffer_len(buffer: &ArrayVec<u8, 128>) -> (n: usize)
    ensures
        n == buffered(*buffer).len(),
{
    buffer.len()
}

/// `ArrayVec::push`: the byte is appended behind the bytes already held.
/// The call panics on a full buffer, which the precondition leaves out; on
/// any other buffer it returns.
#[verifier::external_body]
fn buffer_push(buffer: &mut ArrayVec<u8, 128>, byte: u8)
    requires
        buffered(*old(buffer)).len() < 128,
    ensures
        buffered(*final(buffer)) == buffered(*old(buffer)).push(byte),
    no_unwind
{
    buffer.push(byte)
}

/// `ArrayVec::take`: hands out the buffer with all its bytes and leaves an
/// empty one in its place.  The call always returns.
#[verifier::external_body]
fn buffer_take(buffer: &mut ArrayVec<u8, 128>) -> (taken: ArrayVec<u8, 128>)
    ensures
        buffered(taken) == buffered(*old(buffer)),
        buffered(*final(buffer)) == Seq::<u8>::empty(),
    no_unwind
{
    buffer.take()
}

/// `ArrayVec::into_inner`: a buffer filled to its capacity becomes the
/// array of its bytes; any other buffer comes back unchanged as the error.
#[verifier::external_body]
fn buffer_into_inner(buffer: ArrayVec<u8, 128>) -> (inner: Result<[u8; 128], ArrayVec<u8, 128>>)
    ensures
        match inner {
            Ok(frame) => buffered(buffer).len() == 128 && frame@ == buffered(buffer),
            Err(rest) => buffered(buffer).len() < 128 && buffered(rest) == buffered(buffer),
        },
{
    buffer.into_inner()
}

/// The complete frames in a stream of bytes, in order.
pub open spec fn frames_of(stream: Seq<u8>) -> Seq<Seq<u8>> {
    Seq::new(
        (stream.len() / FRAME_LEN as nat) as nat,
        |i: int| stream.subrange(FRAME_LEN * i, FRAME_LEN * i + FRAME_LEN),
    )
}

/// The bytes of a stream that follow its last complete frame.
pub open spec fn remainder_of(stream: Seq<u8>) -> Seq<u8> {
    stream.subrange(FRAME_LEN * (stream.len() / FRAME_LEN as nat), stream.len() as int)
}

/// The bytes received since the last complete frame.
pub struct CommandBuffer {
    bytes: ArrayVec<u8, 128>,
}

impl CommandBuffer {
    /// The bytes held, oldest first.
    pub closed spec fn view(&self) -> Seq<u8> {
        buffered(self.bytes)
    }

    #[verifier::type_invariant]
    spec fn below_capacity(&self) -> bool {
        buffered(self.bytes).len() < 128
    }

    /// An empty buffer.
    pub fn new() -> (buffer: CommandBuffer)
        ensures
            buffer@ == Seq::<u8>::empty(),
    {
        CommandBuffer { bytes: buffer_new() }
    }

    /// Number of bytes held.
    pub fn len(&self) -> (n: usize)
        ensures
            n == self@.len(),
            n < FRAME_LEN,
    {
        proof {
            use_type_invariant(self);
        }
        buffer_len(&self.bytes)
    }

    /// Takes one byte.  The byte that completes a frame hands the frame out
    /// and empties the buffer.
    pub fn push_byte(&mut self, byte: u8) -> (frame: Option<[u8; 128]>)
        ensures
            old(self)@.len() < FRAME_LEN,
            match frame {
                Some(f) => {
                    &&& old(self)@.len() + 1 == FRAME_LEN
                    &&& f@ == old(self)@.push(byte)
                    &&& final(self)@ == Seq::<u8>::empty()
                },
                None => {
                    &&& old(self)@.len() + 1 < FRAME_LEN
                    &&& final(self)@ == old(self)@.push(byte)
                },
            },
    {
        proof {
            use_type_invariant(&*self);
        }
        if buffer_len(&self.bytes) + 1 == FRAME_LEN {
            let mut full = buffer_take(&mut self.bytes);
            buffer_push(&mut full, byte);
            match buffer_into_inner(full) {
                Ok(frame) => Some(frame),
                Err(_) => None,
            }
        } else {
            buffer_push(&mut self.bytes, byte);
            None
        }
    }

    /// Takes a run of bytes and hands out the frames that it completes, in
    /// order.  The bytes behind the last complete frame stay in the buffer.
    pub fn extend(&mut self, data: &[u8]) -> (frames: Vec<[u8; 128]>)
        ensures
            frames@.len() == frames_of(old(self)@ + data@).len(),
            forall|i: int|
                0 <= i < frames@.len() ==> (#[trigger] frames@[i])@ == frames_of(
                    old(self)@ + data@,
                )[i],
            final(self)@ == remainder_of(old(self)@ + data@),
    {
        let ghost stream = old(self)@ + data@;
        let ghost start = old(self)@.len() as int;
        let mut frames: Vec<[u8; 128]> = Vec::new();
        let mut k: usize = 0;
        proof {
            use_type_invariant(&*self);
            assert(stream.subrange(0, start) =~= self@);
        }
        while k < data.len()
            invariant
                k <= data.len(),
                stream == old(self)@ + data@,
                start == old(self)@.len(),
                self@.len() < FRAME_LEN,
                FRAME_LEN * frames@.len() + self@.len() == start + k,
                self@ == stream.subrange(FRAME_LEN * frames@.len(), start + k),
                forall|i: int|
                    0 <= i < frames@.len() ==> (#[trigger] frames@[i])@ == stream.subrange(
                        FRAME_LEN * i,
                        FRAME_LEN * i + FRAME_LEN,
                    ),
            decreases data.len() - k,
        {
            let byte = data[k];
            let ghost held = self@;
            let ghost done = frames@.len() as int;
            assert(stream[start + k] == byte);
            assert(held.push(byte) =~= stream.subrange(FRAME_LEN * done, start + k + 1));
            match self.push_byte(byte) {
                Some(frame) => {
                    frames.push(frame);
                    assert(self@ =~= stream.subrange(FRAME_LEN * (done + 1), start + k + 1));
                },
                None => {},
            }
            k += 1;
        }
        proof {
            let n = frames@.len() as int;
            let r = self@.len() as int;
            vstd::arithmetic::div_mod::lemma_fundamental_div_mod_converse(
                stream.len() as int,
                FRAME_LEN as int,
                n,
                r,
            );
        }
        frames
    }
}

} // verus!
