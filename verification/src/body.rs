//! The body of a request over HTTP/3, which comes in frames.

use vstd::prelude::*;

verus! {

/// The longest body that a server of HTTP/3 takes, in bytes.
pub const MAX_BODY: usize = 4096;

/// `bytes::Bytes`, bytes that are still to be read.
#[verifier::external_type_specification]
#[verifier::external_body]
pub struct ExBytes(bytes::Bytes);

/// The bytes that are still to be read.
pub uninterp spec fn content(buffer: bytes::Bytes) -> Seq<u8>;

/// `bytes::Buf::remaining`: how many bytes are still to be read.
#[verifier::external_body]
fn remaining(buffer: &bytes::Bytes) -> (r: usize)
    ensures
        r == content(*buffer).len(),
{
    bytes::Buf::remaining(buffer)
}

/// `bytes::Buf::copy_to_bytes`: reads so many bytes. It panics where there are not so many.
#[verifier::external_body]
fn copy_to_bytes(buffer: &mut bytes::Bytes, len: usize) -> (r: bytes::Bytes)
    requires
        len <= content(*old(buffer)).len(),
    ensures
        content(r) == content(*old(buffer)).take(len as int),
        content(*final(buffer)) == content(*old(buffer)).skip(len as int),
{
    bytes::Buf::copy_to_bytes(buffer, len)
}

/// `bytes::Bytes::deref`: the bytes that are still to be read, as a slice.
#[verifier::external_body]
fn as_slice(buffer: &bytes::Bytes) -> (r: &[u8])
    ensures
        r@ == content(*buffer),
{
    std::ops::Deref::deref(buffer)
}

/// `bytes::Bytes::from` for a vector: all its bytes are still to be read.
#[verifier::external_body]
fn from_vec(bytes: Vec<u8>) -> (r: bytes::Bytes)
    ensures
        content(r) == bytes@,
{
    bytes::Bytes::from(bytes)
}

/// Bytes that are to be sent.
pub fn to_send(bytes: Vec<u8>) -> (r: bytes::Bytes)
    ensures
        content(r) == bytes@,
{
    from_vec(bytes)
}

/// The body with one more frame. None where it would be too long.
pub open spec fn body_with(body: Seq<u8>, frame: Seq<u8>) -> Option<Seq<u8>> {
    if body.len() + frame.len() <= MAX_BODY {
        Some(body + frame)
    } else {
        None
    }
}

/// What has come of a body so far.
pub struct Body {
    bytes: Vec<u8>,
}

impl Body {
    #[verifier::type_invariant]
    spec fn in_bounds(self) -> bool {
        self.bytes@.len() <= MAX_BODY
    }

    /// The bytes that have come so far.
    pub closed spec fn received(&self) -> Seq<u8> {
        self.bytes@
    }

    /// A body of which nothing has come yet.
    pub fn new() -> (r: Body)
        ensures
            r.received() == Seq::<u8>::empty(),
    {
        Body { bytes: Vec::new() }
    }

    /// Adds a frame, all of which is read. False where the body would be too long: then body and
    /// frame stay as they were.
    pub fn add_frame(self, frame: &mut bytes::Bytes) -> (r: (Body, bool))
        ensures
            match body_with(self.received(), content(*old(frame))) {
                Some(body) => r.1 && r.0.received() == body && content(*final(frame)).len() == 0,
                None => !r.1 && r.0.received() == self.received() && content(*final(frame))
                    == content(*old(frame)),
            },
    {
        proof {
            use_type_invariant(&self);
        }
        let len: usize = remaining(frame);
        if len > MAX_BODY - self.bytes.len() {
            return (self, false);
        }
        let read = copy_to_bytes(frame, len);
        let mut bytes = self.bytes;
        bytes.extend_from_slice(as_slice(&read));
        assert(bytes@ =~= self.bytes@ + content(*old(frame)));
        (Body { bytes }, true)
    }

    /// The bytes that have come.
    pub fn into_bytes(self) -> (r: Vec<u8>)
        ensures
            r@ == self.received(),
            r.len() <= MAX_BODY,
    {
        proof {
            use_type_invariant(&self);
        }
        self.bytes
    }
}

/// The body that comes in these frames. None where it is too long at some frame.
pub open spec fn body_of(frames: Seq<Seq<u8>>) -> Option<Seq<u8>>
    decreases frames.len(),
{
    if frames.len() == 0 {
        Some(Seq::empty())
    } else {
        match body_of(frames.drop_last()) {
            Some(body) => body_with(body, frames.last()),
            None => None,
        }
    }
}

/// A body is taken if and only if all its frames together are not too long, and is then the frames
/// one behind the other: it does not matter how the bytes are spread over the frames.
pub proof fn law_body_is_its_frames(frames: Seq<Seq<u8>>)
    ensures
        body_of(frames) == if frames.flatten().len() <= MAX_BODY {
            Some(frames.flatten())
        } else {
            None
        },
    decreases frames.len(),
{
    frames.lemma_flatten_and_flatten_alt_are_equivalent();
    if frames.len() > 0 {
        law_body_is_its_frames(frames.drop_last());
        frames.drop_last().lemma_flatten_and_flatten_alt_are_equivalent();
    }
}

} // verus!
