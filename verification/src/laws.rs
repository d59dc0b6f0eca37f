//! The ledger's laws: proof functions that state, over the operations'
//! post-state relations, what holds of every run of the ledger.

use vstd::prelude::*;

use crate::errors::Error;
use crate::ledger::balance_of;
use crate::ledger::holding_index;
use crate::ledger::lemma_balance_after_push;
use crate::ledger::lemma_balance_after_update;
use crate::ledger::lemma_holding_index_props;
use crate::ledger::lemma_user_props_push;
use crate::ledger::lemma_user_props_update;
use crate::ledger::user_props;
use crate::registry::RealEstateNFT;
use crate::types::AccountId;
use crate::types::OwnershipShare;

verus! {

/// Property ids are assigned strictly increasing, starting at 1: a
/// registration hands out the id after the current counter, so two
/// successive registrations yield two distinct, sequential ids, and the
/// first registration ever yields 1.
pub proof fn law_sequential_ids(
    s0: RealEstateNFT,
    s1: RealEstateNFT,
    id1: u64,
    id2: u64,
)
    requires
        id1 == s0.properties@.len() + 1,
        s1.properties@.len() == s0.properties@.len() + 1,
        id2 == s1.properties@.len() + 1,
    ensures
        1 <= id1,
        id2 == id1 + 1,
        s0.properties@.len() == 0 ==> id1 == 1,
{
}

/// Verification is idempotent-unsafe by design: on a property that is
/// already verified, `verify_property` cannot succeed, and the error it
/// answers the administrator is `AlreadyVerified`, not a silent no-op.
pub proof fn law_verify_already_verified(s: RealEstateNFT, property_id: u64, caller: AccountId)
    requires
        s.admin == Some(caller),
        s.id_registered(property_id),
        s.property_at(property_id).is_verified,
    ensures
        !s.verifiable(property_id, caller),
        s.verify_refusal(property_id, caller) == Error::AlreadyVerified,
{
}

/// Shares of an unverified property cannot be bought: `purchase_shares`
/// cannot succeed there, and the error it answers is `NotVerified`. (That
/// the failing call leaves the ledger untouched is part of the operation's
/// contract itself.)
pub proof fn law_purchase_unverified(s: RealEstateNFT, property_id: u64)
    requires
        s.id_registered(property_id),
        !s.property_at(property_id).is_verified,
    ensures
        !s.purchasable(property_id),
        s.purchase_refusal(property_id) == Error::NotVerified,
{
}

/// A transfer of more shares than the sender holds cannot succeed, and the
/// error answered is `InsufficientShares`. (That the failing call leaves
/// both balances untouched is part of the operation's contract itself.)
pub proof fn law_transfer_insufficient(
    s: RealEstateNFT,
    property_id: u64,
    from: AccountId,
    shares: u64,
)
    requires
        holding_index(s.holdings@, property_id, from) >= 0,
        shares > balance_of(s.holdings@, property_id, from),
    ensures
        !s.transferable(property_id, from, shares),
        s.transfer_refusal(property_id, from, shares) == Error::InsufficientShares,
{
}

/// A buyer purchasing `first` and then `more` shares of the same property
/// ends with the balance `first + more`; the owner count rises only with
/// the first purchase, while the transaction count rises with both.
pub proof fn law_repeat_purchase(
    s0: RealEstateNFT,
    s1: RealEstateNFT,
    s2: RealEstateNFT,
    property_id: u64,
    buyer: AccountId,
    first: u64,
    more: u64,
    t1: u64,
    t2: u64,
)
    requires
        s0.wf(),
        holding_index(s0.holdings@, property_id, buyer) == -1,
        RealEstateNFT::purchase_post(s0, s1, property_id, first, buyer, t1),
        RealEstateNFT::purchase_post(s1, s2, property_id, more, buyer, t2),
        first + more <= u64::MAX,
        s0.stats.total_owners < u64::MAX,
        s0.stats.total_transactions + 2 <= u64::MAX,
    ensures
        balance_of(s2.holdings@, property_id, buyer) == first + more,
        s2.stats.total_owners == s0.stats.total_owners + 1,
        s2.stats.total_transactions == s0.stats.total_transactions + 2,
{
    let rec1 = OwnershipShare { property_id, owner: buyer, shares: first, purchase_time: t1 };
    lemma_balance_after_push(s0.holdings@, rec1, property_id, buyer);
    assert(s1.holdings@ == s0.holdings@.push(rec1));
    assert(holding_index(s1.holdings@, property_id, buyer) == s0.holdings@.len());
    let i = holding_index(s1.holdings@, property_id, buyer);
    assert(s1.holdings@[i].shares == first);
    let rec2 = OwnershipShare {
        property_id,
        owner: buyer,
        shares: (s1.holdings@[i].shares + more) as u64,
        purchase_time: t2,
    };
    lemma_balance_after_update(s1.holdings@, i, rec2, property_id, buyer);
    assert(balance_of(s2.holdings@, property_id, buyer) == rec2.shares);
}

/// The per-owner property index is append-only under purchases: a purchase
/// leaves every owner's index unchanged, except that a first-time buyer of
/// the property gains its id at the end of theirs. Nothing is ever pruned,
/// not even a record whose balance has returned to zero.
pub proof fn law_purchase_index_append_only(
    pre: RealEstateNFT,
    post: RealEstateNFT,
    property_id: u64,
    shares: u64,
    buyer: AccountId,
    now: u64,
    owner: AccountId,
)
    requires
        pre.wf(),
        RealEstateNFT::purchase_post(pre, post, property_id, shares, buyer, now),
    ensures
        user_props(post.holdings@, owner) == if owner == buyer && holding_index(
            pre.holdings@,
            property_id,
            buyer,
        ) == -1 {
            user_props(pre.holdings@, owner).push(property_id)
        } else {
            user_props(pre.holdings@, owner)
        },
{
    let i = holding_index(pre.holdings@, property_id, buyer);
    lemma_holding_index_props(pre.holdings@, property_id, buyer);
    if i >= 0 {
        let rec = OwnershipShare {
            property_id,
            owner: buyer,
            shares: (pre.holdings@[i].shares + shares) as u64,
            purchase_time: now,
        };
        lemma_user_props_update(pre.holdings@, i, rec, owner);
    } else {
        let rec = OwnershipShare { property_id, owner: buyer, shares, purchase_time: now };
        lemma_user_props_push(pre.holdings@, rec, owner);
    }
}

/// The per-owner property index is append-only under transfers as well:
/// the sender's index is untouched (their emptied record stays), and only
/// a first-time recipient gains the property's id at the end of theirs.
pub proof fn law_transfer_index_append_only(
    pre: RealEstateNFT,
    post: RealEstateNFT,
    property_id: u64,
    from: AccountId,
    to: AccountId,
    shares: u64,
    now: u64,
    owner: AccountId,
)
    requires
        pre.wf(),
        pre.transferable(property_id, from, shares),
        RealEstateNFT::transfer_post(pre, post, property_id, from, to, shares, now),
    ensures
        user_props(post.holdings@, owner) == if owner == to && holding_index(
            pre.holdings@,
            property_id,
            to,
        ) == -1 {
            user_props(pre.holdings@, owner).push(property_id)
        } else {
            user_props(pre.holdings@, owner)
        },
{
    let i = holding_index(pre.holdings@, property_id, from);
    lemma_holding_index_props(pre.holdings@, property_id, from);
    lemma_holding_index_props(pre.holdings@, property_id, to);
    let new_from = OwnershipShare {
        shares: (pre.holdings@[i].shares - shares) as u64,
        ..pre.holdings@[i]
    };
    let mid = pre.holdings@.update(i, new_from);
    lemma_user_props_update(pre.holdings@, i, new_from, owner);
    let j = holding_index(pre.holdings@, property_id, to);
    if j >= 0 {
        let rec_to = OwnershipShare {
            property_id,
            owner: to,
            shares: (pre.holdings@[j].shares + shares) as u64,
            purchase_time: now,
        };
        lemma_user_props_update(mid, j, rec_to, owner);
    } else {
        let rec_to = OwnershipShare { property_id, owner: to, shares, purchase_time: now };
        lemma_user_props_push(mid, rec_to, owner);
    }
}

/// Conservation of shares: a successful transfer between two distinct
/// identities moves exactly `shares` from the sender's balance to the
/// recipient's, so the sum of the two balances is unchanged. Every other
/// balance, of any identity in any property, is untouched as well.
pub proof fn law_transfer_conserves(
    pre: RealEstateNFT,
    post: RealEstateNFT,
    property_id: u64,
    from: AccountId,
    to: AccountId,
    shares: u64,
    now: u64,
)
    requires
        pre.wf(),
        from != to,
        pre.transferable(property_id, from, shares),
        balance_of(pre.holdings@, property_id, to) + shares <= u64::MAX,
        RealEstateNFT::transfer_post(pre, post, property_id, from, to, shares, now),
    ensures
        balance_of(post.holdings@, property_id, from) == balance_of(
            pre.holdings@,
            property_id,
            from,
        ) - shares,
        balance_of(post.holdings@, property_id, to) == balance_of(
            pre.holdings@,
            property_id,
            to,
        ) + shares,
        balance_of(post.holdings@, property_id, from) + balance_of(
            post.holdings@,
            property_id,
            to,
        ) == balance_of(pre.holdings@, property_id, from) + balance_of(
            pre.holdings@,
            property_id,
            to,
        ),
{
    let i = holding_index(pre.holdings@, property_id, from);
    lemma_holding_index_props(pre.holdings@, property_id, from);
    lemma_holding_index_props(pre.holdings@, property_id, to);
    let new_from = OwnershipShare {
        shares: (pre.holdings@[i].shares - shares) as u64,
        ..pre.holdings@[i]
    };
    let mid = pre.holdings@.update(i, new_from);
    lemma_balance_after_update(pre.holdings@, i, new_from, property_id, from);
    lemma_balance_after_update(pre.holdings@, i, new_from, property_id, to);
    let j = holding_index(pre.holdings@, property_id, to);
    if j >= 0 {
        let rec_to = OwnershipShare {
            property_id,
            owner: to,
            shares: (pre.holdings@[j].shares + shares) as u64,
            purchase_time: now,
        };
        lemma_balance_after_update(mid, j, rec_to, property_id, to);
        lemma_balance_after_update(mid, j, rec_to, property_id, from);
    } else {
        let rec_to = OwnershipShare { property_id, owner: to, shares, purchase_time: now };
        lemma_balance_after_push(mid, rec_to, property_id, to);
        lemma_balance_after_push(mid, rec_to, property_id, from);
    }
}

} // verus!
