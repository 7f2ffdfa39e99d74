//! A stack-resident type-opaque box.
//!
//! A box stores the bytes of a value together with a process-wide type tag, in
//! a buffer whose capacity is fixed when the box is created.  The tag is the
//! only way back to the value: extraction succeeds exactly when the caller
//! asks under the tag the value was stored with.  The event-type set stays
//! open because tags are plain identifiers handed in by the embedder, one per
//! concrete type.

use vstd::prelude::*;

verus! {

/// Whether a payload of the given length fits a box of byte capacity `size`.
pub open spec fn fits(size: nat, payload: Seq<u8>) -> bool {
    payload.len() <= size
}

/// The outcome of asking a box that stores `payload` under the tag `stored`
/// for a value of the type tagged `expected`: the payload comes out exactly
/// under its own tag, and under any other tag nothing comes out.
pub open spec fn extract_result(stored: u64, payload: Seq<u8>, expected: u64) -> Option<Seq<u8>> {
    if stored == expected {
        Some(payload)
    } else {
        None
    }
}

/// Round trip: whatever payload a box stores, asking under the tag it was
/// stored with yields that payload unchanged.
pub proof fn lemma_extract_round_trip(tag: u64, payload: Seq<u8>)
    ensures
        extract_result(tag, payload, tag) == Some(payload),
{
}

/// A mismatched tag never extracts anything, whatever the stored payload; the
/// answer does not change on a retry, since extraction leaves the box intact.
pub proof fn lemma_extract_mismatch(stored: u64, payload: Seq<u8>, expected: u64)
    requires
        stored != expected,
    ensures
        extract_result(stored, payload, expected) is None,
{
}

/// A stack-resident type-opaque box that owns the stored value.
///
/// The box is consumed exactly once: either [`StackBox::into_inner`] extracts
/// the value, or [`StackBox::drop_impl`] stands in for scope-exit destruction
/// and hands the still-owned bytes back for the tagged type's destructor.
#[derive(Debug)]
#[must_use]
pub struct StackBox {
    /// The buffer capacity in bytes
    size: usize,
    /// The type tag of the stored value
    type_id: u64,
    /// The bytes of the stored value
    bytes: Vec<u8>,
}

impl StackBox {
    /// The buffer capacity in bytes.
    pub closed spec fn capacity(self) -> nat {
        self.size as nat
    }

    /// The type tag of the stored value.
    pub closed spec fn type_tag(self) -> u64 {
        self.type_id
    }

    /// The bytes of the stored value.
    pub closed spec fn payload(self) -> Seq<u8> {
        self.bytes@
    }

    /// Creates a box of byte capacity `size` holding `value`'s bytes under the
    /// type tag `type_id`; a value larger than the capacity is handed back
    /// unchanged.
    pub fn new(size: usize, type_id: u64, value: Vec<u8>) -> (r: Result<Self, Vec<u8>>)
        ensures
            fits(size as nat, value@) ==> (r matches Ok(b) && b.capacity() == size
                && b.type_tag() == type_id && b.payload() == value@),
            !fits(size as nat, value@) ==> r == Err::<Self, Vec<u8>>(value),
    {
        // Validate that the value fits into the box
        if value.len() > size {
            return Err(value);
        }
        Ok(StackBox { size, type_id, bytes: value })
    }

    /// The type tag of the stored value.
    pub fn inner_type_id(&self) -> (r: u64)
        ensures
            r == self.type_tag(),
    {
        self.type_id
    }

    /// The buffer capacity in bytes.
    pub fn size(&self) -> (r: usize)
        ensures
            r == self.capacity(),
    {
        self.size
    }

    /// Extracts the stored value, consuming the box; under any tag other than
    /// the one the value was stored with, the intact box is handed back, so
    /// the caller may retry under a different expected type.
    pub fn into_inner(self, type_id: u64) -> (r: Result<Vec<u8>, Self>)
        ensures
            self.type_tag() == type_id ==> (r matches Ok(v) && Some(v@) == extract_result(
                self.type_tag(),
                self.payload(),
                type_id,
            )),
            self.type_tag() != type_id ==> r == Err::<Vec<u8>, Self>(self),
    {
        // Validate that the stored value has the expected type
        if self.type_id != type_id {
            return Err(self);
        }
        Ok(self.bytes)
    }

    /// Stands in for scope-exit destruction of an unconsumed box: consumes the
    /// box and hands back the type tag and the owned bytes, so that the
    /// destructor of the tagged type can release the value.  A box consumed by
    /// [`StackBox::into_inner`] is gone and can never reach this, and this
    /// call consumes the box in turn, so the stored value is released exactly
    /// once — never zero times, never twice.
    pub fn drop_impl(self) -> (r: (u64, Vec<u8>))
        ensures
            r.0 == self.type_tag(),
            r.1@ == self.payload(),
    {
        (self.type_id, self.bytes)
    }
}

/// A stack-resident type-opaque box for freely duplicable values.
///
/// Same layout as [`StackBox`] without the destructor slot: reading the value
/// copies the bytes out and leaves the box usable, legal only for values whose
/// bit-copy carries no ownership to release.
#[derive(Debug)]
pub struct CopyBox {
    /// The buffer capacity in bytes
    size: usize,
    /// The type tag of the stored value
    type_id: u64,
    /// The bytes of the stored value
    bytes: Vec<u8>,
}

impl CopyBox {
    /// The buffer capacity in bytes.
    pub closed spec fn capacity(self) -> nat {
        self.size as nat
    }

    /// The type tag of the stored value.
    pub closed spec fn type_tag(self) -> u64 {
        self.type_id
    }

    /// The bytes of the stored value.
    pub closed spec fn payload(self) -> Seq<u8> {
        self.bytes@
    }

    /// Creates a box of byte capacity `size` holding `value`'s bytes under the
    /// type tag `type_id`; a value larger than the capacity is refused.
    pub fn new(size: usize, type_id: u64, value: Vec<u8>) -> (r: Option<Self>)
        ensures
            fits(size as nat, value@) ==> (r matches Some(b) && b.capacity() == size
                && b.type_tag() == type_id && b.payload() == value@),
            !fits(size as nat, value@) ==> r is None,
    {
        // Validate that the value fits into the box
        if value.len() > size {
            return None;
        }
        Some(CopyBox { size, type_id, bytes: value })
    }

    /// The type tag of the stored value.
    pub fn inner_type_id(&self) -> (r: u64)
        ensures
            r == self.type_tag(),
    {
        self.type_id
    }

    /// Copies the stored value out, leaving the box intact; under any tag
    /// other than the one the value was stored with, nothing comes out, and a
    /// retry under the right tag still succeeds.
    pub fn inner(&self, type_id: u64) -> (r: Option<Vec<u8>>)
        ensures
            self.type_tag() == type_id ==> (r matches Some(v) && Some(v@) == extract_result(
                self.type_tag(),
                self.payload(),
                type_id,
            )),
            self.type_tag() != type_id ==> r is None,
    {
        // Validate that the stored value has the expected type
        if self.type_id != type_id {
            return None;
        }
        // Copy the value
        let mut value: Vec<u8> = Vec::new();
        let mut i: usize = 0;
        while i < self.bytes.len()
            invariant
                i <= self.bytes.len(),
                value@ == self.bytes@.take(i as int),
            decreases self.bytes.len() - i,
        {
            value.push(self.bytes[i]);
            proof {
                assert(value@ =~= self.bytes@.take(i + 1));
            }
            i = i + 1;
        }
        proof {
            assert(value@ =~= self.bytes@);
        }
        Some(value)
    }
}

} // verus!
