//! The socket table: a `HopSlotMap` of the `slotmap` crate, keyed by the
//! canonical raw value of each key.
use slotmap::{DefaultKey, HopSlotMap, Key, KeyData};
use vstd::prelude::*;

use crate::handle::SocketHandle;
use crate::socket::{PollnetSocket, SocketView};

verus! {

/// The socket table: a `HopSlotMap` keyed by `DefaultKey`, held in a private
/// field; what it holds is seen through `table_contents`.
#[verifier::external_body]
pub struct SocketTable {
    slots: HopSlotMap<DefaultKey, PollnetSocket>,
}

/// What a socket table holds: each occupied key, by its raw value
/// `KeyData::as_ffi` (always with an odd version), mapped to its socket.
pub uninterp spec fn table_contents(t: SocketTable) -> Map<u64, SocketView>;

/// The most sockets a table can hold: `HopSlotMap::insert` panics when the
/// number of elements would reach `u32::MAX`.
pub open spec fn table_capacity() -> nat {
    0xFFFF_FFFE
}

/// `HopSlotMap::with_key`: a new table is empty.
#[verifier::external_body]
pub(crate) fn table_new() -> (table: SocketTable)
    ensures
        table_contents(table).dom() == Set::<u64>::empty(),
        table_contents(table).dom().finite(),
{
    SocketTable { slots: HopSlotMap::with_key() }
}

/// `HopSlotMap::len`: the number of occupied keys.
#[verifier::external_body]
pub(crate) fn table_len(t: &SocketTable) -> (n: usize)
    ensures
        n == table_contents(*t).dom().len(),
{
    t.slots.len()
}

/// `HopSlotMap::insert`: stores the value under a key that was not
/// occupied before and returns that key (its version is odd, so its raw
/// value is canonical). The table grows by one. Under the bound of
/// `requires` every slot index, new or reused, stays below `u32::MAX`, so
/// the key is never the null key. Panics when the table would hold
/// `u32::MAX` elements, which `requires` rules out.
#[verifier::external_body]
pub(crate) fn table_insert(t: &mut SocketTable, value: PollnetSocket) -> (h:
    SocketHandle)
    requires
        table_contents(*old(t)).dom().len() < table_capacity(),
    ensures
        h.ffi == h@,
        h@ % 0x1_0000_0000 < 0xFFFF_FFFF,
        !table_contents(*old(t)).contains_key(h@),
        table_contents(*final(t)) == table_contents(*old(t)).insert(h@, value@),
        table_contents(*final(t)).dom().finite(),
        table_contents(*final(t)).dom().len() == table_contents(*old(t)).dom().len() + 1,
{
    let key = t.slots.insert(value);
    SocketHandle { ffi: key.data().as_ffi() }
}

/// `HopSlotMap::get`, with the key rebuilt by `KeyData::from_ffi` (which
/// forces the version odd, so the lookup is by the canonical raw value).
#[verifier::external_body]
pub(crate) fn table_get<'a>(t: &'a SocketTable, h: SocketHandle) -> (r:
    Option<&'a PollnetSocket>)
    ensures
        match r {
            Some(s) => table_contents(*t).contains_key(h@) && s@ == table_contents(*t)[h@],
            None => !table_contents(*t).contains_key(h@),
        },
{
    let key: DefaultKey = KeyData::from_ffi(h.ffi).into();
    t.slots.get(key)
}

/// `HopSlotMap::get_mut`, keyed as `table_get`: what is written through
/// the reference becomes the socket under that key.
#[verifier::external_body]
pub(crate) fn table_get_mut<'a>(
    t: &'a mut SocketTable,
    h: SocketHandle,
) -> (r: Option<&'a mut PollnetSocket>)
    ensures
        table_contents(*old(t)).contains_key(h@) ==> {
            &&& r.is_some()
            &&& r.unwrap()@ == table_contents(*old(t))[h@]
            &&& table_contents(*final(t)) == table_contents(*old(t)).insert(h@, final(r.unwrap())@)
        },
        table_contents(*final(t)).dom().finite() == table_contents(*old(t)).dom().finite(),
        !table_contents(*old(t)).contains_key(h@) ==> {
            &&& r.is_none()
            &&& table_contents(*final(t)) == table_contents(*old(t))
        },
{
    let key: DefaultKey = KeyData::from_ffi(h.ffi).into();
    t.slots.get_mut(key)
}

/// `HopSlotMap::remove`, keyed as `table_get`: takes the socket out.
#[verifier::external_body]
pub(crate) fn table_remove(t: &mut SocketTable, h: SocketHandle) -> (r:
    Option<PollnetSocket>)
    ensures
        match r {
            Some(s) => table_contents(*old(t)).contains_key(h@) && s@ == table_contents(*old(t))[h@],
            None => !table_contents(*old(t)).contains_key(h@),
        },
        table_contents(*final(t)) == table_contents(*old(t)).remove(h@),
        table_contents(*final(t)).dom().finite(),
{
    let key: DefaultKey = KeyData::from_ffi(h.ffi).into();
    t.slots.remove(key)
}

/// `HopSlotMap::clear`: the table becomes empty.
#[verifier::external_body]
pub(crate) fn table_clear(table: &mut SocketTable)
    ensures
        table_contents(*final(table)).dom() == Set::<u64>::empty(),
        table_contents(*final(table)).dom().finite(),
{
    table.slots.clear()
}

/// `HopSlotMap::keys`, each key handed out as its raw value: every
/// occupied key exactly once, in the table's own order.
#[verifier::external_body]
pub(crate) fn table_handles(t: &SocketTable) -> (r: Vec<SocketHandle>)
    ensures
        r@.len() == table_contents(*t).dom().len(),
        forall|i: int| 0 <= i < r@.len() ==> #[trigger] r@[i].ffi == r@[i]@,
        forall|i: int| 0 <= i < r@.len() ==> table_contents(*t).contains_key(#[trigger] r@[i]@),
        forall|k: u64| table_contents(*t).contains_key(k) ==> exists|i: int| 0 <= i < r@.len() && #[trigger] r@[i]@ == k,
        forall|i: int, j: int| 0 <= i < j < r@.len() ==> r@[i]@ != r@[j]@,
{
    t.slots.keys().map(|k| SocketHandle { ffi: k.data().as_ffi() }).collect()
}

} // verus!
