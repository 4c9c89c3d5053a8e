//! The bytes of a relayed datagram.
use bytes::Bytes;
use vstd::prelude::*;

verus! {

/// `bytes::Bytes`, a reference-counted slice of bytes that cannot be changed.
#[verifier::external_type_specification]
#[verifier::external_body]
pub struct ExBytes(Bytes);

/// The bytes that a `bytes::Bytes` holds.
pub uninterp spec fn content(b: Bytes) -> Seq<u8>;

/// `bytes::Bytes::from`, on a `Vec<u8>`: the result holds the bytes of the
/// vector, in order.
#[verifier::external_body]
fn freeze(v: Vec<u8>) -> (b: Bytes)
    ensures
        content(b) == v@,
{
    Bytes::from(v)
}

/// `bytes::Bytes::len`: how many bytes it holds.
#[verifier::external_body]
pub(crate) fn length(b: &Bytes) -> (n: usize)
    ensures
        n == content(*b).len(),
{
    b.len()
}

/// The bytes of a datagram of `n` bytes that was received into `buf`.
pub open spec fn received(buf: Seq<u8>, n: int) -> Seq<u8> {
    if n <= buf.len() {
        buf.take(n)
    } else {
        buf
    }
}

/// The datagram of `n` bytes that was received into `buf`.
pub fn datagram(buf: Vec<u8>, n: usize) -> (b: Bytes)
    ensures
        content(b) == (if n <= buf@.len() {
            buf@.take(n as int)
        } else {
            buf@
        }),
        content(b) == received(buf@, n as int),
{
    let mut buf = buf;
    buf.truncate(n);
    freeze(buf)
}

/// Of what was received every byte is kept, in its place, and of the rest of the buffer
/// none; there are never more bytes than the buffer holds.
pub proof fn what_was_received_is_kept(buf: Seq<u8>, n: nat, i: int)
    ensures
        n <= buf.len() ==> received(buf, n as int).len() == n,
        n > buf.len() ==> received(buf, n as int).len() == buf.len(),
        0 <= i < received(buf, n as int).len() ==> received(buf, n as int)[i] == buf[i],
{
}

} // verus!
