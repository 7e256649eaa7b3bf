//! Internal ids: the keys under which rooms and events are stored as vertices.

use vstd::prelude::*;

verus! {

/// Internal id of a room.
pub type RoomUuid = u128;

/// Internal id of an event.
pub type EventUuid = u128;

/// The bits of an id that hold its version and its variant.
pub const UUID_KIND_MASK: u128 = 0x0000_0000_0000_f000_c000_0000_0000_0000u128;

/// The value of those bits in a random (version 4) id.
pub const UUID_RANDOM_KIND: u128 = 0x0000_0000_0000_4000_8000_0000_0000_0000u128;

/// Whether `id` carries the version and variant of a random id.
pub open spec fn is_random_uuid(id: u128) -> bool {
    id & UUID_KIND_MASK == UUID_RANDOM_KIND
}

/// Whether `id` carries the version and variant of a random id.
pub fn has_random_kind(id: u128) -> (r: bool)
    ensures
        r == is_random_uuid(id),
{
    id & UUID_KIND_MASK == UUID_RANDOM_KIND
}

/// Mints an internal id with `uuid::Uuid::new_v4`, handed on as the 128-bit
/// number that `Uuid::as_u128` gives.
///
/// Trusted: the id is random, so nothing is claimed of it but the version and
/// variant bits that `new_v4` sets in every id it returns. Where the system
/// has no random bytes to give, `new_v4` panics.
#[verifier::external_body]
pub(crate) fn mint_uuid() -> (id: u128)
    ensures
        is_random_uuid(id),
{
    uuid::Uuid::new_v4().as_u128()
}

} // verus!
