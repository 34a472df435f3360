//! The byte buffers of the `bytes` crate, with contracts over their contents.

use bytes::{Bytes, BytesMut};
use vstd::prelude::*;

verus! {

/// A growable buffer of the `bytes` crate.
#[verifier::external_type_specification]
#[verifier::external_body]
pub struct ExBytesMut(BytesMut);

/// An immutable buffer of the `bytes` crate.
#[verifier::external_type_specification]
#[verifier::external_body]
pub struct ExBytes(Bytes);

/// The bytes that a growable buffer holds, first to last.
pub uninterp spec fn buffered(b: BytesMut) -> Seq<u8>;

/// The bytes that an immutable buffer holds, first to last.
pub uninterp spec fn frozen(b: Bytes) -> Seq<u8>;

/// `BytesMut::with_capacity` gives a buffer without contents.
///
/// A capacity above `isize::MAX` cannot be allocated and is left out.
pub assume_specification[ BytesMut::with_capacity ](capacity: usize) -> (b: BytesMut)
    requires
        capacity <= isize::MAX,
    ensures
        buffered(b) == Seq::<u8>::empty(),
;

/// `BytesMut::is_empty` tells whether the contents have length zero.
pub assume_specification[ BytesMut::is_empty ](b: &BytesMut) -> (r: bool)
    ensures
        r == (buffered(*b).len() == 0),
;

/// `BytesMut::take` hands out all contents and leaves the buffer empty.
pub assume_specification[ BytesMut::take ](b: &mut BytesMut) -> (r: BytesMut)
    ensures
        buffered(r) == buffered(*old(b)),
        buffered(*final(b)) == Seq::<u8>::empty(),
;

/// `BytesMut::freeze` keeps the contents.
pub assume_specification[ BytesMut::freeze ](b: BytesMut) -> (r: Bytes)
    ensures
        frozen(r) == buffered(b),
;

/// `BytesMut::extend_from_slice` appends the slice to the contents.
pub assume_specification[ BytesMut::extend_from_slice ](b: &mut BytesMut, extend: &[u8])
    ensures
        buffered(*final(b)) == buffered(*old(b)) + extend@,
;

/// `BytesMut::advance` drops bytes from the front. It panics beyond the end.
pub assume_specification[ BytesMut::advance ](b: &mut BytesMut, cnt: usize)
    requires
        cnt <= buffered(*old(b)).len(),
    ensures
        buffered(*final(b)) == buffered(*old(b)).skip(cnt as int),
;

/// `BytesMut::clear` removes all contents.
pub assume_specification[ BytesMut::clear ](b: &mut BytesMut)
    ensures
        buffered(*final(b)) == Seq::<u8>::empty(),
;

/// `<BytesMut as AsRef<[u8]>>::as_ref` shows the contents as a slice.
pub assume_specification[ <BytesMut as AsRef<[u8]>>::as_ref ](b: &BytesMut) -> (r: &[u8])
    ensures
        r@ == buffered(*b),
;

/// `<Bytes as AsRef<[u8]>>::as_ref` shows the contents as a slice.
pub assume_specification[ <Bytes as AsRef<[u8]>>::as_ref ](b: &Bytes) -> (r: &[u8])
    ensures
        r@ == frozen(*b),
;

} // verus!
