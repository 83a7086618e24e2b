//! Identifiers and the stamp that dates a change.
use vstd::prelude::*;

verus! {

/// A 128-bit identifier of a project, a session, a message or a surface.
#[derive(Clone, Copy, Debug, PartialEq, Eq, Hash, Structural)]
pub struct Uuid {
    pub bits: u128,
}

/// Where a random identifier carries its version and its variant.
pub const KIND_MASK: u128 = 0xF000C000000000000000;

/// What stands there: version 4 and the standard variant.
pub const RANDOM_KIND: u128 = 0x40008000000000000000;

/// Draws the bits of a random identifier with `uuid::Uuid::new_v4`.
///
/// The crate draws 128 random bits and then fixes the version and the variant;
/// of the other bits nothing is claimed.
#[verifier::external_body]
fn random_bits() -> (bits: u128)
    ensures
        bits & KIND_MASK == RANDOM_KIND,
{
    uuid::Uuid::new_v4().as_u128()
}

/// A clock that stands before the Unix epoch.
#[verifier::external_type_specification]
#[verifier::external_body]
pub struct ExSystemTimeError(std::time::SystemTimeError);

/// The wall clock's distance from the Unix epoch, by `std::time::SystemTime::elapsed`; an
/// error for a clock set before it. Nothing is claimed of the reading.
#[verifier::external_body]
fn since_epoch() -> Result<std::time::Duration, std::time::SystemTimeError> {
    std::time::UNIX_EPOCH.elapsed()
}

/// The whole milliseconds of a duration, by `std::time::Duration::as_millis`. A duration
/// shows nothing of itself here, so nothing is claimed of their number.
pub assume_specification[ std::time::Duration::as_millis ](duration: &std::time::Duration) -> u128;

/// The wall clock in milliseconds since the Unix epoch, zero for a clock set before it.
fn clock_millis() -> u64 {
    match since_epoch() {
        Ok(duration) => #[verifier::truncate] (duration.as_millis() as u64),
        Err(_) => 0,
    }
}

impl Uuid {
    /// A random identifier: version 4, standard variant, and so never the nil one.
    pub open spec fn is_random(self) -> bool {
        self.bits & KIND_MASK == RANDOM_KIND && self.bits != 0
    }

    /// The identifier with exactly these bits.
    pub fn from_u128(bits: u128) -> (id: Uuid)
        ensures
            id == (Uuid { bits }),
    {
        Uuid { bits }
    }

    /// The identifier whose bits are all zero.
    pub fn nil() -> (id: Uuid)
        ensures
            id.bits == 0,
    {
        Uuid { bits: 0 }
    }

    /// Draws a random identifier.
    pub fn new_v4() -> (id: Uuid)
        ensures
            id.is_random(),
    {
        let bits = random_bits();
        assert(bits & 0xF000C000000000000000 == 0x40008000000000000000 ==> bits != 0) by (bit_vector);
        Uuid { bits }
    }
}

/// What one change takes from outside: when it happens and the identifiers of
/// what it creates.
#[derive(Clone, Copy, Debug, PartialEq, Eq, Structural)]
pub struct Stamp {
    /// Seconds since the Unix epoch.
    pub secs: u64,
    /// Milliseconds since the Unix epoch.
    pub millis: u64,
    /// The identifier of the message, activity, session or surface created.
    pub id: Uuid,
    /// The identifier of the turn created beside it.
    pub turn: Uuid,
}

impl Stamp {
    /// What holds of every stamp that is taken: its seconds are those of its milliseconds,
    /// and its identifiers are random.
    pub open spec fn taken(self) -> bool {
        &&& self.secs == self.millis / 1000
        &&& self.id.is_random()
        &&& self.turn.is_random()
    }

    /// A stamp of this moment with fresh identifiers.
    pub fn take() -> (stamp: Stamp)
        ensures
            stamp.taken(),
    {
        let millis = clock_millis();
        Stamp { secs: millis / 1000, millis, id: Uuid::new_v4(), turn: Uuid::new_v4() }
    }
}

/// Every one of the stamps was taken.
pub open spec fn all_taken(stamps: Seq<Stamp>) -> bool {
    forall|k: int| 0 <= k < stamps.len() ==> (#[trigger] stamps[k]).taken()
}

} // verus!
