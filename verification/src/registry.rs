//! The ledger state and its operations: registration, verification,
//! purchase, transfer, and the read-only queries.

use vstd::prelude::*;

use crate::errors::Error;
use crate::ledger::balance_of;
use crate::ledger::count_verified;
use crate::ledger::holding_index;
use crate::ledger::holdings_in_range;
use crate::ledger::ids_sequential;
use crate::ledger::is_key;
use crate::ledger::keys_unique;
use crate::ledger::lemma_balance_after_push;
use crate::ledger::lemma_balance_after_update;
use crate::ledger::lemma_count_verified_lt_len;
use crate::ledger::lemma_count_verified_push;
use crate::ledger::lemma_count_verified_update;
use crate::ledger::lemma_holding_index_at;
use crate::ledger::lemma_holding_index_props;
use crate::ledger::lemma_total_owned_prefix_le;
use crate::ledger::total_owned;
use crate::ledger::user_props;
use crate::types::AccountId;
use crate::types::OwnershipShare;
use crate::types::Property;
use crate::types::PropertyStats;

verus! {

/// The whole ledger: the administrator (once set), the property catalog in
/// registration order, every ownership record ever created, and the
/// incrementally maintained statistics.
///
/// The record at catalog index `i` carries property id `i + 1`, so the
/// registration counter of the ledger is the catalog's length. The ownership
/// records double as the per-owner property index: a record is appended
/// exactly when a `(property, owner)` pair first acquires a balance and is
/// never removed, so the ids of an owner's records, in creation order, are
/// the properties they have ever held.
pub struct RealEstateNFT {
    pub admin: Option<AccountId>,
    pub properties: Vec<Property>,
    pub holdings: Vec<OwnershipShare>,
    pub stats: PropertyStats,
}

impl RealEstateNFT {
    /// Well-formedness: ids are sequential from 1, ownership keys are
    /// unique and point at registered properties, and the counters agree
    /// with the ledger they summarize. Every operation preserves this.
    pub open spec fn wf(&self) -> bool {
        &&& ids_sequential(self.properties@)
        &&& keys_unique(self.holdings@)
        &&& holdings_in_range(self.holdings@, self.properties@.len() as int)
        &&& self.stats.total_properties == self.properties@.len()
        &&& self.stats.verified_properties == count_verified(self.properties@)
        &&& self.stats.total_owners == self.holdings@.len()
    }

    /// A property id names a registered property.
    pub open spec fn id_registered(&self, property_id: u64) -> bool {
        1 <= property_id <= self.properties@.len()
    }

    /// The registered property a valid id names.
    pub open spec fn property_at(&self, property_id: u64) -> Property {
        self.properties@[property_id - 1]
    }

    /// Shares of a property may change hands once it is registered and
    /// verified.
    pub open spec fn purchasable(&self, property_id: u64) -> bool {
        self.id_registered(property_id) && self.property_at(property_id).is_verified
    }

    /// A fresh, uninitialized ledger: no administrator, no properties, no
    /// ownership records, all counters zero.
    pub fn new() -> (res: RealEstateNFT)
        ensures
            res.wf(),
            res.admin is None,
            res.properties@ =~= Seq::<Property>::empty(),
            res.holdings@ =~= Seq::<OwnershipShare>::empty(),
            res.stats == (PropertyStats {
                total_properties: 0,
                verified_properties: 0,
                total_owners: 0,
                total_transactions: 0,
            }),
    {
        RealEstateNFT {
            admin: None,
            properties: Vec::new(),
            holdings: Vec::new(),
            stats: PropertyStats::zero(),
        }
    }

    /// Designates the administrator. Succeeds exactly once: a second call
    /// fails with `AlreadyInitialized` and changes nothing.
    pub fn initialize(&mut self, admin: AccountId) -> (res: Result<(), Error>)
        requires
            old(self).wf(),
        ensures
            final(self).wf(),
            match res {
                Ok(()) => {
                    &&& old(self).admin is None
                    &&& final(self).admin == Some(admin)
                    &&& final(self).properties == old(self).properties
                    &&& final(self).holdings == old(self).holdings
                    &&& final(self).stats == old(self).stats
                },
                Err(e) => {
                    &&& e == Error::AlreadyInitialized
                    &&& old(self).admin is Some
                    &&& *final(self) == *old(self)
                },
            },
    {
        if self.admin.is_some() {
            return Err(Error::AlreadyInitialized);
        }
        self.admin = Some(admin);
        Ok(())
    }

    /// The index of the record keyed by `(property_id, owner)`.
    fn find_holding(&self, property_id: u64, owner: AccountId) -> (res: Option<usize>)
        requires
            keys_unique(self.holdings@),
        ensures
            match res {
                Some(i) => {
                    &&& i < self.holdings@.len()
                    &&& i == holding_index(self.holdings@, property_id, owner)
                },
                None => holding_index(self.holdings@, property_id, owner) == -1,
            },
    {
        let mut i: usize = 0;
        while i < self.holdings.len()
            invariant
                i <= self.holdings@.len(),
                keys_unique(self.holdings@),
                forall|j: int|
                    0 <= j < i ==> !is_key(#[trigger] self.holdings@[j], property_id, owner),
            decreases self.holdings@.len() - i,
        {
            let h = self.holdings[i];
            if h.property_id == property_id && h.owner == owner {
                proof {
                    lemma_holding_index_at(self.holdings@, property_id, owner, i as int);
                }
                return Some(i);
            }
            i = i + 1;
        }
        proof {
            lemma_holding_index_props(self.holdings@, property_id, owner);
        }
        None
    }

    /// Registers a new property under the next sequential id, unverified,
    /// stamped with `now`, and counts it in the statistics. Registration
    /// always succeeds.
    ///
    /// The length bound keeps the id counter and the property total within
    /// `u64`.
    pub fn register_property(
        &mut self,
        title: String,
        location: String,
        description: String,
        total_shares: u64,
        price_per_share: u64,
        image_url: String,
        now: u64,
    ) -> (id: u64)
        requires
            old(self).wf(),
            old(self).properties@.len() < u64::MAX,
        ensures
            final(self).wf(),
            id == old(self).properties@.len() + 1,
            final(self).properties@ == old(self).properties@.push(
                (Property {
                    property_id: id,
                    title,
                    location,
                    description,
                    total_shares,
                    price_per_share,
                    image_url,
                    registration_time: now,
                    is_verified: false,
                }),
            ),
            final(self).holdings == old(self).holdings,
            final(self).admin == old(self).admin,
            final(self).stats == (PropertyStats {
                total_properties: (old(self).stats.total_properties + 1) as u64,
                ..old(self).stats
            }),
    {
        let n: usize = self.properties.len();
        let id: u64 = (n as u64) + 1;
        let property = Property {
            property_id: id,
            title,
            location,
            description,
            total_shares,
            price_per_share,
            image_url,
            registration_time: now,
            is_verified: false,
        };
        proof {
            lemma_count_verified_push(self.properties@, property);
        }
        self.properties.push(property);
        self.stats.total_properties = self.stats.total_properties + 1;
        id
    }

    /// The error `verify_property` answers when it cannot verify, in the
    /// order the checks are made: initialization, then authorization, then
    /// existence, then current status.
    pub open spec fn verify_refusal(&self, property_id: u64, caller: AccountId) -> Error {
        if self.admin is None {
            Error::NotInitialized
        } else if self.admin != Some(caller) {
            Error::NotAuthorized
        } else if !self.id_registered(property_id) {
            Error::NotFound
        } else {
            Error::AlreadyVerified
        }
    }

    /// `verify_property` succeeds exactly when the administrator calls it on
    /// a registered, not yet verified property.
    pub open spec fn verifiable(&self, property_id: u64, caller: AccountId) -> bool {
        &&& self.admin == Some(caller)
        &&& self.id_registered(property_id)
        &&& !self.property_at(property_id).is_verified
    }

    /// Marks a registered property as verified. Only the administrator may
    /// do so, and only once per property: verification never reverts, and a
    /// second attempt fails with `AlreadyVerified` rather than passing
    /// silently. On failure the ledger is unchanged.
    pub fn verify_property(&mut self, property_id: u64, caller: AccountId) -> (res: Result<
        (),
        Error,
    >)
        requires
            old(self).wf(),
        ensures
            final(self).wf(),
            match res {
                Ok(()) => {
                    &&& old(self).verifiable(property_id, caller)
                    &&& final(self).properties@ == old(self).properties@.update(
                        property_id - 1,
                        (Property { is_verified: true, ..old(self).property_at(property_id) }),
                    )
                    &&& final(self).holdings == old(self).holdings
                    &&& final(self).admin == old(self).admin
                    &&& final(self).stats == (PropertyStats {
                        verified_properties: (old(self).stats.verified_properties + 1) as u64,
                        ..old(self).stats
                    })
                },
                Err(e) => {
                    &&& !old(self).verifiable(property_id, caller)
                    &&& e == old(self).verify_refusal(property_id, caller)
                    &&& *final(self) == *old(self)
                },
            },
    {
        let admin: AccountId = match self.admin {
            None => { return Err(Error::NotInitialized) },
            Some(a) => a,
        };
        if admin != caller {
            return Err(Error::NotAuthorized);
        }
        if property_id < 1 || property_id > self.properties.len() as u64 {
            return Err(Error::NotFound);
        }
        let idx: usize = (property_id - 1) as usize;
        if self.properties[idx].is_verified {
            return Err(Error::AlreadyVerified);
        }
        proof {
            lemma_count_verified_lt_len(self.properties@, idx as int);
            lemma_count_verified_update(
                self.properties@,
                idx as int,
                Property { is_verified: true, ..self.properties@[idx as int] },
            );
        }
        self.properties[idx].is_verified = true;
        self.stats.verified_properties = self.stats.verified_properties + 1;
        Ok(())
    }

    /// The error `purchase_shares` answers when the property cannot be
    /// bought into: existence is checked before verification status.
    pub open spec fn purchase_refusal(&self, property_id: u64) -> Error {
        if !self.id_registered(property_id) {
            Error::NotFound
        } else {
            Error::NotVerified
        }
    }

    /// How a successful purchase changes the ledger: the buyer's record for
    /// the property grows by `shares` (created at `shares` if this is the
    /// buyer's first balance in it), stamped with `now`; the transaction
    /// count rises by one, and the owner count too when the record is new.
    pub open spec fn purchase_post(
        pre: Self,
        post: Self,
        property_id: u64,
        shares: u64,
        buyer: AccountId,
        now: u64,
    ) -> bool {
        let i = holding_index(pre.holdings@, property_id, buyer);
        &&& post.admin == pre.admin
        &&& post.properties == pre.properties
        &&& if i >= 0 {
            &&& post.holdings@ == pre.holdings@.update(
                i,
                (OwnershipShare {
                    property_id,
                    owner: buyer,
                    shares: (pre.holdings@[i].shares + shares) as u64,
                    purchase_time: now,
                }),
            )
            &&& post.stats == (PropertyStats {
                total_transactions: (pre.stats.total_transactions + 1) as u64,
                ..pre.stats
            })
        } else {
            &&& post.holdings@ == pre.holdings@.push(
                (OwnershipShare { property_id, owner: buyer, shares, purchase_time: now }),
            )
            &&& post.stats == (PropertyStats {
                total_owners: (pre.stats.total_owners + 1) as u64,
                total_transactions: (pre.stats.total_transactions + 1) as u64,
                ..pre.stats
            })
        }
    }

    /// Buys `shares` shares of a registered, verified property for `buyer`.
    ///
    /// By design, nothing bounds the cumulative shares sold against the
    /// property's `total_shares`: the ledger does the bookkeeping only, and
    /// leaves supply policy to its callers.
    ///
    /// The bounds under `purchasable` are machine limits: the buyer's new
    /// balance and the counters must fit in `u64`. On failure the ledger is
    /// unchanged.
    pub fn purchase_shares(
        &mut self,
        property_id: u64,
        shares: u64,
        buyer: AccountId,
        now: u64,
    ) -> (res: Result<(), Error>)
        requires
            old(self).wf(),
            old(self).purchasable(property_id) ==> {
                &&& balance_of(old(self).holdings@, property_id, buyer) + shares <= u64::MAX
                &&& old(self).stats.total_transactions < u64::MAX
                &&& old(self).holdings@.len() < u64::MAX
            },
        ensures
            final(self).wf(),
            match res {
                Ok(()) => {
                    &&& old(self).purchasable(property_id)
                    &&& Self::purchase_post(
                        *old(self),
                        *final(self),
                        property_id,
                        shares,
                        buyer,
                        now,
                    )
                },
                Err(e) => {
                    &&& !old(self).purchasable(property_id)
                    &&& e == old(self).purchase_refusal(property_id)
                    &&& *final(self) == *old(self)
                },
            },
    {
        if property_id < 1 || property_id > self.properties.len() as u64 {
            return Err(Error::NotFound);
        }
        let pidx: usize = (property_id - 1) as usize;
        if !self.properties[pidx].is_verified {
            return Err(Error::NotVerified);
        }
        match self.find_holding(property_id, buyer) {
            Some(i) => {
                proof {
                    lemma_holding_index_props(self.holdings@, property_id, buyer);
                    lemma_balance_after_update(
                        self.holdings@,
                        i as int,
                        OwnershipShare {
                            property_id,
                            owner: buyer,
                            shares: (self.holdings@[i as int].shares + shares) as u64,
                            purchase_time: now,
                        },
                        property_id,
                        buyer,
                    );
                }
                let updated = OwnershipShare {
                    property_id,
                    owner: buyer,
                    shares: self.holdings[i].shares + shares,
                    purchase_time: now,
                };
                self.holdings[i] = updated;
                self.stats.total_transactions = self.stats.total_transactions + 1;
            },
            None => {
                proof {
                    lemma_balance_after_push(
                        self.holdings@,
                        OwnershipShare { property_id, owner: buyer, shares, purchase_time: now },
                        property_id,
                        buyer,
                    );
                }
                self.holdings.push(
                    OwnershipShare { property_id, owner: buyer, shares, purchase_time: now },
                );
                self.stats.total_owners = self.stats.total_owners + 1;
                self.stats.total_transactions = self.stats.total_transactions + 1;
            },
        }
        Ok(())
    }

    /// The error `transfer_shares` answers when the sender cannot give up
    /// `shares`: a missing record is reported before a short balance.
    pub open spec fn transfer_refusal(
        &self,
        property_id: u64,
        from: AccountId,
        shares: u64,
    ) -> Error {
        if holding_index(self.holdings@, property_id, from) == -1 {
            Error::NoBalance
        } else {
            Error::InsufficientShares
        }
    }

    /// `transfer_shares` succeeds exactly when the sender has a record for
    /// the property with at least `shares` shares in it.
    pub open spec fn transferable(
        &self,
        property_id: u64,
        from: AccountId,
        shares: u64,
    ) -> bool {
        &&& holding_index(self.holdings@, property_id, from) >= 0
        &&& shares <= balance_of(self.holdings@, property_id, from)
    }

    /// How a successful transfer changes the ledger: the sender's record
    /// shrinks by `shares` (its timestamp untouched), then the recipient's
    /// balance is written as its value before any update plus `shares`,
    /// stamped with `now`. A transaction is counted once; an owner event
    /// only when the recipient's record is new.
    ///
    /// Because the recipient's balance is read before the sender's record is
    /// written back, a transfer from an identity to itself leaves that one
    /// record at its old balance plus `shares`: the recipient write is
    /// last.
    pub open spec fn transfer_post(
        pre: Self,
        post: Self,
        property_id: u64,
        from: AccountId,
        to: AccountId,
        shares: u64,
        now: u64,
    ) -> bool {
        let i = holding_index(pre.holdings@, property_id, from);
        let j = holding_index(pre.holdings@, property_id, to);
        let mid = pre.holdings@.update(
            i,
            (OwnershipShare {
                shares: (pre.holdings@[i].shares - shares) as u64,
                ..pre.holdings@[i]
            }),
        );
        &&& post.admin == pre.admin
        &&& post.properties == pre.properties
        &&& if j >= 0 {
            &&& post.holdings@ == mid.update(
                j,
                (OwnershipShare {
                    property_id,
                    owner: to,
                    shares: (pre.holdings@[j].shares + shares) as u64,
                    purchase_time: now,
                }),
            )
            &&& post.stats == (PropertyStats {
                total_transactions: (pre.stats.total_transactions + 1) as u64,
                ..pre.stats
            })
        } else {
            &&& post.holdings@ == mid.push(
                (OwnershipShare { property_id, owner: to, shares, purchase_time: now }),
            )
            &&& post.stats == (PropertyStats {
                total_owners: (pre.stats.total_owners + 1) as u64,
                total_transactions: (pre.stats.total_transactions + 1) as u64,
                ..pre.stats
            })
        }
    }

    /// Moves `shares` shares of a property from `from` to `to`.
    ///
    /// The bounds under `transferable` are machine limits: the recipient's
    /// new balance and the counters must fit in `u64`. On failure the ledger
    /// is unchanged.
    pub fn transfer_shares(
        &mut self,
        property_id: u64,
        from: AccountId,
        to: AccountId,
        shares: u64,
        now: u64,
    ) -> (res: Result<(), Error>)
        requires
            old(self).wf(),
            old(self).transferable(property_id, from, shares) ==> {
                &&& balance_of(old(self).holdings@, property_id, to) + shares <= u64::MAX
                &&& old(self).stats.total_transactions < u64::MAX
                &&& old(self).holdings@.len() < u64::MAX
            },
        ensures
            final(self).wf(),
            match res {
                Ok(()) => {
                    &&& old(self).transferable(property_id, from, shares)
                    &&& Self::transfer_post(
                        *old(self),
                        *final(self),
                        property_id,
                        from,
                        to,
                        shares,
                        now,
                    )
                },
                Err(e) => {
                    &&& !old(self).transferable(property_id, from, shares)
                    &&& e == old(self).transfer_refusal(property_id, from, shares)
                    &&& *final(self) == *old(self)
                },
            },
    {
        let from_idx: usize = match self.find_holding(property_id, from) {
            None => { return Err(Error::NoBalance) },
            Some(i) => i,
        };
        let from_rec = self.holdings[from_idx];
        if from_rec.shares < shares {
            return Err(Error::InsufficientShares);
        }
        proof {
            lemma_holding_index_props(self.holdings@, property_id, from);
        }
        let new_from = OwnershipShare { shares: from_rec.shares - shares, ..from_rec };
        match self.find_holding(property_id, to) {
            Some(j) => {
                let to_balance: u64 = self.holdings[j].shares;
                proof {
                    lemma_holding_index_props(self.holdings@, property_id, to);
                    lemma_balance_after_update(
                        self.holdings@,
                        from_idx as int,
                        new_from,
                        property_id,
                        to,
                    );
                }
                self.holdings[from_idx] = new_from;
                proof {
                    lemma_holding_index_at(self.holdings@, property_id, to, j as int);
                    lemma_balance_after_update(
                        self.holdings@,
                        j as int,
                        OwnershipShare {
                            property_id,
                            owner: to,
                            shares: (to_balance + shares) as u64,
                            purchase_time: now,
                        },
                        property_id,
                        to,
                    );
                }
                self.holdings[j] = OwnershipShare {
                    property_id,
                    owner: to,
                    shares: to_balance + shares,
                    purchase_time: now,
                };
                self.stats.total_transactions = self.stats.total_transactions + 1;
            },
            None => {
                proof {
                    lemma_holding_index_props(self.holdings@, property_id, to);
                    lemma_balance_after_update(
                        self.holdings@,
                        from_idx as int,
                        new_from,
                        property_id,
                        to,
                    );
                }
                self.holdings[from_idx] = new_from;
                proof {
                    lemma_balance_after_push(
                        self.holdings@,
                        OwnershipShare { property_id, owner: to, shares, purchase_time: now },
                        property_id,
                        to,
                    );
                }
                self.holdings.push(
                    OwnershipShare { property_id, owner: to, shares, purchase_time: now },
                );
                self.stats.total_owners = self.stats.total_owners + 1;
                self.stats.total_transactions = self.stats.total_transactions + 1;
            },
        }
        Ok(())
    }

    /// Looks a property up by id; `NotFound` for an id never handed out.
    pub fn get_property(&self, property_id: u64) -> (res: Result<Property, Error>)
        ensures
            match res {
                Ok(p) => self.id_registered(property_id) && p == self.property_at(property_id),
                Err(e) => !self.id_registered(property_id) && e == Error::NotFound,
            },
    {
        if property_id < 1 || property_id > self.properties.len() as u64 {
            return Err(Error::NotFound);
        }
        Ok(self.properties[(property_id - 1) as usize].clone())
    }

    /// The ownership record for `(property_id, owner)`. Where no record
    /// exists this answers a zero record (no shares, timestamp zero) rather
    /// than failing: a read, unlike a catalog lookup, defaults to empty.
    pub fn get_ownership(&self, property_id: u64, owner: AccountId) -> (res: OwnershipShare)
        requires
            keys_unique(self.holdings@),
        ensures
            res.property_id == property_id,
            res.owner == owner,
            res.shares == balance_of(self.holdings@, property_id, owner),
            holding_index(self.holdings@, property_id, owner) >= 0 ==> res == self.holdings@[
                holding_index(self.holdings@, property_id, owner)
            ],
            holding_index(self.holdings@, property_id, owner) == -1 ==> res == (OwnershipShare {
                property_id,
                owner,
                shares: 0,
                purchase_time: 0,
            }),
    {
        proof {
            lemma_holding_index_props(self.holdings@, property_id, owner);
        }
        match self.find_holding(property_id, owner) {
            Some(i) => self.holdings[i],
            None => OwnershipShare { property_id, owner, shares: 0, purchase_time: 0 },
        }
    }

    /// The ids of the properties in which `owner` has ever held a balance,
    /// in the order they were first acquired. Entries whose balance has
    /// fallen back to zero stay listed.
    pub fn get_user_properties(&self, owner: AccountId) -> (res: Vec<u64>)
        ensures
            res@ == user_props(self.holdings@, owner),
    {
        let mut res: Vec<u64> = Vec::new();
        let mut i: usize = 0;
        while i < self.holdings.len()
            invariant
                i <= self.holdings@.len(),
                res@ == user_props(self.holdings@.subrange(0, i as int), owner),
            decreases self.holdings@.len() - i,
        {
            proof {
                assert(self.holdings@.subrange(0, i + 1).drop_last() =~= self.holdings@.subrange(
                    0,
                    i as int,
                ));
                assert(self.holdings@.subrange(0, i + 1).last() == self.holdings@[i as int]);
            }
            let h = self.holdings[i];
            if h.owner == owner {
                res.push(h.property_id);
            }
            i = i + 1;
        }
        proof {
            assert(self.holdings@.subrange(0, self.holdings@.len() as int) =~= self.holdings@);
        }
        res
    }

    /// The aggregate counters, exactly as maintained by the mutations.
    pub fn get_property_stats(&self) -> (res: PropertyStats)
        ensures
            res == self.stats,
    {
        self.stats
    }

    /// The sum of `owner`'s balances over every property they have ever
    /// held — zero-balance records contribute nothing. The bound is a
    /// machine limit: the sum must fit in `u64`.
    pub fn get_total_shares_owned(&self, owner: AccountId) -> (res: u64)
        requires
            total_owned(self.holdings@, owner) <= u64::MAX,
        ensures
            res == total_owned(self.holdings@, owner),
    {
        let mut total: u64 = 0;
        let mut i: usize = 0;
        while i < self.holdings.len()
            invariant
                i <= self.holdings@.len(),
                total == total_owned(self.holdings@.subrange(0, i as int), owner),
                total_owned(self.holdings@, owner) <= u64::MAX,
            decreases self.holdings@.len() - i,
        {
            proof {
                assert(self.holdings@.subrange(0, i + 1).drop_last() =~= self.holdings@.subrange(
                    0,
                    i as int,
                ));
                assert(self.holdings@.subrange(0, i + 1).last() == self.holdings@[i as int]);
                lemma_total_owned_prefix_le(
                    self.holdings@,
                    owner,
                    i + 1,
                    self.holdings@.len() as int,
                );
                assert(self.holdings@.subrange(0, self.holdings@.len() as int)
                    =~= self.holdings@);
            }
            let h = self.holdings[i];
            if h.owner == owner {
                total = total + h.shares;
            }
            i = i + 1;
        }
        proof {
            assert(self.holdings@.subrange(0, self.holdings@.len() as int) =~= self.holdings@);
        }
        total
    }

    /// The page of the catalog that `list_properties` answers: the
    /// properties with ids in `[start_idx, start_idx + limit]`, the upper
    /// bound clamped to the registration counter and ids below 1 skipped.
    pub open spec fn listing(ps: Seq<Property>, start_idx: u64, limit: u64) -> Seq<Property> {
        let end = if start_idx + limit > ps.len() {
            ps.len() as int
        } else {
            start_idx + limit
        };
        let lo = if start_idx < 1 {
            0int
        } else {
            start_idx - 1
        };
        if lo >= end {
            Seq::empty()
        } else {
            ps.subrange(lo, end)
        }
    }

    /// Lists registered properties with ids in `[start_idx, start_idx +
    /// limit]`, both bounds inclusive, clamped to the ids handed out so
    /// far. A page never holds more than `limit + 1` entries, and every
    /// entry's id is positive and no larger than the registration counter.
    pub fn list_properties(&self, start_idx: u64, limit: u64) -> (res: Vec<Property>)
        requires
            self.wf(),
        ensures
            res@ == Self::listing(self.properties@, start_idx, limit),
            res@.len() <= limit + 1,
            forall|k: int|
                0 <= k < res@.len() ==> 0 < #[trigger] res@[k].property_id
                    <= self.properties@.len(),
    {
        let n: u64 = self.properties.len() as u64;
        let end: u64 = if limit > n {
            n
        } else if start_idx > n - limit {
            n
        } else {
            start_idx + limit
        };
        let lo: u64 = if start_idx < 1 {
            0
        } else {
            start_idx - 1
        };
        let mut res: Vec<Property> = Vec::new();
        let mut j: u64 = lo;
        while j < end
            invariant
                lo <= j <= end || j == lo,
                end <= self.properties@.len(),
                self.properties@.len() <= usize::MAX,
                self.wf(),
                lo < end ==> res@ == self.properties@.subrange(lo as int, j as int),
                lo >= end ==> res@.len() == 0,
            decreases end - j,
        {
            proof {
                assert(self.properties@.subrange(lo as int, j + 1) =~= self.properties@.subrange(
                    lo as int,
                    j as int,
                ).push(self.properties@[j as int]));
            }
            res.push(self.properties[j as usize].clone());
            j = j + 1;
        }
        proof {
            assert(res@ =~= Self::listing(self.properties@, start_idx, limit));
        }
        res
    }
}

} // verus!
