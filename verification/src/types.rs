use vstd::prelude::*;

verus! {

/// Identities (the administrator, buyers, share owners) are abstract account
/// numbers. Proving that a caller really controls an identity is the host's
/// concern; the ledger only compares identities for equality.
pub type AccountId = u64;

/// A registered property, divisible into `total_shares` shares.
///
/// Ids are handed out sequentially starting at 1 and never reused, and
/// `is_verified` moves from `false` to `true` exactly once.
#[derive(Debug)]
pub struct Property {
    pub property_id: u64,
    pub title: String,
    pub location: String,
    pub description: String,
    pub total_shares: u64,
    pub price_per_share: u64,
    pub image_url: String,
    pub registration_time: u64,
    pub is_verified: bool,
}

impl Clone for Property {
    fn clone(&self) -> (res: Self)
        ensures
            res == *self,
    {
        Property {
            property_id: self.property_id,
            title: self.title.clone(),
            location: self.location.clone(),
            description: self.description.clone(),
            total_shares: self.total_shares,
            price_per_share: self.price_per_share,
            image_url: self.image_url.clone(),
            registration_time: self.registration_time,
            is_verified: self.is_verified,
        }
    }
}

/// The share balance one owner holds in one property, keyed by
/// `(property_id, owner)`. A record is created on the owner's first
/// acquisition and is never removed, even when the balance falls to zero.
#[derive(Clone, Copy, Debug, PartialEq, Eq, Structural)]
pub struct OwnershipShare {
    pub property_id: u64,
    pub owner: AccountId,
    pub shares: u64,
    /// Timestamp of the last purchase or incoming transfer.
    pub purchase_time: u64,
}

/// Aggregate counters, updated incrementally alongside every mutation and
/// never recomputed by scanning the ledger.
///
/// `total_owners` counts ownership *relationships*, not distinct identities:
/// it is incremented each time some (property, owner) pair first acquires a
/// balance, so one identity holding shares in three properties contributes
/// three.
#[derive(Clone, Copy, Debug, PartialEq, Eq, Structural)]
pub struct PropertyStats {
    pub total_properties: u64,
    pub verified_properties: u64,
    pub total_owners: u64,
    pub total_transactions: u64,
}

impl PropertyStats {
    /// The all-zero record a fresh ledger starts from.
    pub fn zero() -> (res: PropertyStats)
        ensures
            res == (PropertyStats {
                total_properties: 0,
                verified_properties: 0,
                total_owners: 0,
                total_transactions: 0,
            }),
    {
        PropertyStats { total_properties: 0, verified_properties: 0, total_owners: 0, total_transactions: 0 }
    }
}

} // verus!
