use vstd::prelude::*;

verus! {

/// A set of room/party permission bits, stored as the two 64-bit words in which the
/// database keeps them (`Permissions1`, `Permissions2`).
#[derive(Debug, Clone, Copy, PartialEq, Eq, Structural)]
pub struct Permissions {
    pub low: i64,
    pub high: i64,
}

impl Permissions {
    /// The permission set with no bit set.
    pub open spec fn spec_empty() -> Permissions {
        Permissions { low: 0, high: 0 }
    }

    /// Every bit of `other` is set in `self`.
    pub open spec fn spec_contains(self, other: Permissions) -> bool {
        (self.low & other.low) == other.low && (self.high & other.high) == other.high
    }

    /// `self` and `other` share at least one bit.
    pub open spec fn spec_intersects(self, other: Permissions) -> bool {
        (self.low & other.low) != 0 || (self.high & other.high) != 0
    }

    pub fn empty() -> (p: Permissions)
        ensures
            p == Permissions::spec_empty(),
    {
        Permissions { low: 0, high: 0 }
    }

    /// Builds the set from the two database words.
    pub fn from_i64(low: i64, high: i64) -> (p: Permissions)
        ensures
            p.low == low,
            p.high == high,
    {
        Permissions { low, high }
    }

    /// The two database words of the set, low word first.
    pub fn to_i64(&self) -> (words: [i64; 2])
        ensures
            words@ == seq![self.low, self.high],
    {
        [self.low, self.high]
    }

    pub fn is_empty(&self) -> (b: bool)
        ensures
            b == (self.low == 0 && self.high == 0),
    {
        self.low == 0 && self.high == 0
    }

    pub fn contains(&self, other: Permissions) -> (b: bool)
        ensures
            b == self.spec_contains(other),
    {
        (self.low & other.low) == other.low && (self.high & other.high) == other.high
    }

    pub fn intersects(&self, other: Permissions) -> (b: bool)
        ensures
            b == self.spec_intersects(other),
    {
        (self.low & other.low) != 0 || (self.high & other.high) != 0
    }
}

/// The permissions a user has in a room, from the aggregated row of the room's
/// permissions for the user (none: no permission at all). An administrator has every
/// permission, `all`.
pub fn room_permissions(row: Option<(i64, i64)>, administrator: Permissions, all: Permissions) -> (p: Permissions)
    ensures
        p == match row {
            None => Permissions::spec_empty(),
            Some((low, high)) => if (Permissions { low, high }).spec_contains(administrator) {
                all
            } else {
                Permissions { low, high }
            },
        },
{
    match row {
        None => Permissions::empty(),
        Some((low, high)) => {
            let perm = Permissions::from_i64(low, high);
            if perm.contains(administrator) {
                all
            } else {
                perm
            }
        },
    }
}

} // verus!
