//! Socket handles: the 64-bit values that cross the C boundary.
//!
//! A handle packs a slot index (low 32 bits) and a version (high 32 bits).
//! Occupied slots always carry an odd version, so every handle is kept in
//! its canonical form, with bit 32 set.
use vstd::prelude::*;

verus! {

/// 2^32: the weight of the version half of a handle.
pub const VERSION_UNIT: u64 = 0x1_0000_0000;

/// The canonical form of a raw handle value: the version is forced odd.
pub open spec fn canonical_ffi(v: u64) -> u64 {
    if (v as int / VERSION_UNIT as int) % 2 == 0 {
        (v + VERSION_UNIT) as u64
    } else {
        v
    }
}

/// A raw value is canonical when its version half is odd.
pub open spec fn is_canonical_ffi(v: u64) -> bool {
    (v as int / VERSION_UNIT as int) % 2 == 1
}

/// The raw value of the null handle: slot index `u32::MAX`, version 1.
pub open spec fn null_ffi() -> u64 {
    0x1_FFFF_FFFF
}

/// Handle of a socket in a `PollnetContext`.
#[derive(Clone, Copy, Debug, PartialEq, Eq, Structural)]
pub struct SocketHandle {
    /// The raw value as last written; its canonical form is the view.
    pub ffi: u64,
}

impl View for SocketHandle {
    type V = u64;

    open spec fn view(&self) -> u64 {
        canonical_ffi(self.ffi)
    }
}

/// Computes the canonical form of a raw handle value.
pub fn canonicalize(v: u64) -> (r: u64)
    ensures
        r == canonical_ffi(v),
        is_canonical_ffi(r),
{
    if (v / VERSION_UNIT) % 2 == 0 {
        v + VERSION_UNIT
    } else {
        v
    }
}

impl SocketHandle {
    /// The null handle, which never names a socket that a context hands out
    /// through `insert` unless the table has grown to 2^32 - 1 slots.
    pub fn null() -> (h: SocketHandle)
        ensures
            h@ == null_ffi(),
    {
        SocketHandle { ffi: 0x1_FFFF_FFFF }
    }

    /// True for the null handle (slot index `u32::MAX`).
    pub fn is_null(&self) -> (b: bool)
        ensures
            b == (self@ % VERSION_UNIT == 0xFFFF_FFFF),
    {
        self.ffi % VERSION_UNIT == 0xFFFF_FFFF
    }

    /// Builds a handle from a raw value, forcing the version odd.
    pub fn from_ffi(v: u64) -> (h: SocketHandle)
        ensures
            h@ == canonical_ffi(v),
            h.ffi == canonical_ffi(v),
    {
        SocketHandle { ffi: canonicalize(v) }
    }

    /// The raw value of the handle, in canonical form.
    pub fn as_ffi(&self) -> (v: u64)
        ensures
            v == self@,
    {
        canonicalize(self.ffi)
    }
}

impl From<u64> for SocketHandle {
    fn from(item: u64) -> (h: SocketHandle) {
        SocketHandle::from_ffi(item)
    }
}

impl vstd::std_specs::convert::FromSpecImpl<u64> for SocketHandle {
    open spec fn obeys_from_spec() -> bool {
        true
    }

    open spec fn from_spec(v: u64) -> SocketHandle {
        SocketHandle { ffi: canonical_ffi(v) }
    }
}

impl From<SocketHandle> for u64 {
    fn from(item: SocketHandle) -> (v: u64) {
        item.as_ffi()
    }
}

impl vstd::std_specs::convert::FromSpecImpl<SocketHandle> for u64 {
    open spec fn obeys_from_spec() -> bool {
        true
    }

    open spec fn from_spec(h: SocketHandle) -> u64 {
        h@
    }
}

/// Converting a raw value to a handle and back yields its canonical form,
/// and a canonical value comes back unchanged.
pub proof fn lemma_ffi_round_trip(v: u64)
    ensures
        canonical_ffi(canonical_ffi(v)) == canonical_ffi(v),
        is_canonical_ffi(v) ==> canonical_ffi(v) == v,
        is_canonical_ffi(canonical_ffi(v)),
{
}

/// The canonical form is what `KeyData::from_ffi` followed by `as_ffi`
/// computes in `slotmap`: the same value with bit 32 (the low bit of the
/// version) set.
pub proof fn lemma_canonical_sets_bit_32(v: u64)
    ensures
        canonical_ffi(v) == v | 0x1_0000_0000u64,
{
    assert((v / 0x1_0000_0000u64) % 2 == 0 ==> v | 0x1_0000_0000u64 == v + 0x1_0000_0000u64) by (bit_vector);
    assert((v / 0x1_0000_0000u64) % 2 != 0 ==> v | 0x1_0000_0000u64 == v) by (bit_vector);
}

} // verus!
