//! The mathematical model of the ledger: specification functions over the
//! sequence of ownership records and the sequence of registered properties,
//! together with the lemmas the operations and laws are proved from.

use vstd::prelude::*;

use crate::types::AccountId;
use crate::types::OwnershipShare;
use crate::types::Property;

verus! {

/// Does record `h` carry the balance of `owner` in property `pid`?
pub open spec fn is_key(h: OwnershipShare, pid: u64, owner: AccountId) -> bool {
    h.property_id == pid && h.owner == owner
}

/// The index of the record keyed by `(pid, owner)`, or `-1` when there is
/// none. When keys are unique this is the only matching index.
pub open spec fn holding_index(s: Seq<OwnershipShare>, pid: u64, owner: AccountId) -> int
    decreases s.len(),
{
    if s.len() == 0 {
        -1
    } else if is_key(s.last(), pid, owner) {
        s.len() - 1
    } else {
        holding_index(s.drop_last(), pid, owner)
    }
}

/// The share balance of `owner` in property `pid`: the `shares` field of the
/// record keyed by `(pid, owner)`, or zero when no record exists.
pub open spec fn balance_of(s: Seq<OwnershipShare>, pid: u64, owner: AccountId) -> u64 {
    if holding_index(s, pid, owner) >= 0 {
        s[holding_index(s, pid, owner)].shares
    } else {
        0
    }
}

/// No two records share a `(property_id, owner)` key.
pub open spec fn keys_unique(s: Seq<OwnershipShare>) -> bool {
    forall|i: int, j: int|
        0 <= i < j < s.len() ==> !(#[trigger] s[i].property_id == #[trigger] s[j].property_id
            && s[i].owner == s[j].owner)
}

/// Every record points at a registered property: an id in `1 ..= n_props`.
pub open spec fn holdings_in_range(s: Seq<OwnershipShare>, n_props: int) -> bool {
    forall|i: int| 0 <= i < s.len() ==> 1 <= #[trigger] s[i].property_id <= n_props
}

/// The property ids in which `owner` has ever held a balance, in the order
/// the records were created. Records are never removed, so this also lists
/// properties in which the balance has fallen back to zero.
pub open spec fn user_props(s: Seq<OwnershipShare>, owner: AccountId) -> Seq<u64>
    decreases s.len(),
{
    if s.len() == 0 {
        Seq::empty()
    } else if s.last().owner == owner {
        user_props(s.drop_last(), owner).push(s.last().property_id)
    } else {
        user_props(s.drop_last(), owner)
    }
}

/// The sum of `owner`'s share balances over all their records, as an
/// unbounded integer.
pub open spec fn total_owned(s: Seq<OwnershipShare>, owner: AccountId) -> int
    decreases s.len(),
{
    if s.len() == 0 {
        0
    } else if s.last().owner == owner {
        total_owned(s.drop_last(), owner) + s.last().shares
    } else {
        total_owned(s.drop_last(), owner)
    }
}

/// How many of the properties are verified.
pub open spec fn count_verified(ps: Seq<Property>) -> int
    decreases ps.len(),
{
    if ps.len() == 0 {
        0
    } else {
        count_verified(ps.drop_last()) + if ps.last().is_verified {
            1int
        } else {
            0int
        }
    }
}

/// Property ids are assigned sequentially starting at 1: the record at
/// index `i` carries id `i + 1`.
pub open spec fn ids_sequential(ps: Seq<Property>) -> bool {
    forall|i: int| 0 <= i < ps.len() ==> #[trigger] ps[i].property_id == i + 1
}

/// `holding_index` lands on a matching record, and `-1` means no record
/// matches.
pub proof fn lemma_holding_index_props(s: Seq<OwnershipShare>, pid: u64, owner: AccountId)
    ensures
        holding_index(s, pid, owner) == -1 || 0 <= holding_index(s, pid, owner) < s.len(),
        holding_index(s, pid, owner) >= 0 ==> is_key(s[holding_index(s, pid, owner)], pid, owner),
        holding_index(s, pid, owner) == -1 ==> forall|j: int|
            0 <= j < s.len() ==> !is_key(#[trigger] s[j], pid, owner),
    decreases s.len(),
{
    if s.len() > 0 && !is_key(s.last(), pid, owner) {
        lemma_holding_index_props(s.drop_last(), pid, owner);
        assert forall|j: int| 0 <= j < s.len() && holding_index(s, pid, owner) == -1 implies !is_key(
            #[trigger] s[j],
            pid,
            owner,
        ) by {
            if j < s.len() - 1 {
                assert(s.drop_last()[j] == s[j]);
            }
        }
    }
}

/// With unique keys, a matching record's index is what `holding_index`
/// returns.
pub proof fn lemma_holding_index_at(s: Seq<OwnershipShare>, pid: u64, owner: AccountId, i: int)
    requires
        keys_unique(s),
        0 <= i < s.len(),
        is_key(s[i], pid, owner),
    ensures
        holding_index(s, pid, owner) == i,
    decreases s.len(),
{
    if i == s.len() - 1 {
        assert(is_key(s.last(), pid, owner));
    } else {
        assert(!is_key(s.last(), pid, owner));
        assert(s.drop_last()[i] == s[i]);
        lemma_holding_index_at(s.drop_last(), pid, owner, i);
    }
}

/// Replacing a record with one carrying the same key keeps keys unique and
/// moves exactly that key's balance to the new record's share count.
pub proof fn lemma_balance_after_update(
    s: Seq<OwnershipShare>,
    i: int,
    h2: OwnershipShare,
    pid: u64,
    owner: AccountId,
)
    requires
        keys_unique(s),
        0 <= i < s.len(),
        h2.property_id == s[i].property_id,
        h2.owner == s[i].owner,
    ensures
        keys_unique(s.update(i, h2)),
        is_key(s[i], pid, owner) ==> holding_index(s.update(i, h2), pid, owner) == i,
        is_key(s[i], pid, owner) ==> balance_of(s.update(i, h2), pid, owner) == h2.shares,
        !is_key(s[i], pid, owner) ==> holding_index(s.update(i, h2), pid, owner) == holding_index(
            s,
            pid,
            owner,
        ),
        !is_key(s[i], pid, owner) ==> balance_of(s.update(i, h2), pid, owner) == balance_of(
            s,
            pid,
            owner,
        ),
{
    let t = s.update(i, h2);
    assert(keys_unique(t));
    if is_key(s[i], pid, owner) {
        lemma_holding_index_at(t, pid, owner, i);
    } else {
        let j = holding_index(s, pid, owner);
        lemma_holding_index_props(s, pid, owner);
        if j >= 0 {
            assert(j != i);
            assert(is_key(t[j], pid, owner));
            lemma_holding_index_at(t, pid, owner, j);
        } else {
            lemma_holding_index_props(t, pid, owner);
            if holding_index(t, pid, owner) >= 0 {
                let k = holding_index(t, pid, owner);
                assert(is_key(t[k], pid, owner));
                assert(k != i);
                assert(is_key(s[k], pid, owner));
            }
        }
    }
}

/// Appending a record under a fresh key keeps keys unique, gives that key
/// the new record's balance, and leaves every other balance alone.
pub proof fn lemma_balance_after_push(
    s: Seq<OwnershipShare>,
    h2: OwnershipShare,
    pid: u64,
    owner: AccountId,
)
    requires
        keys_unique(s),
        holding_index(s, h2.property_id, h2.owner) == -1,
    ensures
        keys_unique(s.push(h2)),
        is_key(h2, pid, owner) ==> holding_index(s.push(h2), pid, owner) == s.len(),
        is_key(h2, pid, owner) ==> balance_of(s.push(h2), pid, owner) == h2.shares,
        !is_key(h2, pid, owner) ==> holding_index(s.push(h2), pid, owner) == holding_index(
            s,
            pid,
            owner,
        ),
        !is_key(h2, pid, owner) ==> balance_of(s.push(h2), pid, owner) == balance_of(s, pid, owner),
{
    let t = s.push(h2);
    lemma_holding_index_props(s, h2.property_id, h2.owner);
    assert forall|i: int, j: int| 0 <= i < j < t.len() implies !(#[trigger] t[i].property_id
        == #[trigger] t[j].property_id && t[i].owner == t[j].owner) by {
        if j == t.len() - 1 {
            assert(!is_key(s[i], h2.property_id, h2.owner));
        }
    }
    assert(t.drop_last() =~= s);
    assert(t.last() == h2);
    if is_key(h2, pid, owner) {
        assert(holding_index(t, pid, owner) == t.len() - 1);
    } else {
        assert(holding_index(t, pid, owner) == holding_index(s, pid, owner));
        lemma_holding_index_props(s, pid, owner);
    }
}

/// A verified count never exceeds the number of properties.
pub proof fn lemma_count_verified_le_len(ps: Seq<Property>)
    ensures
        0 <= count_verified(ps) <= ps.len(),
    decreases ps.len(),
{
    if ps.len() > 0 {
        lemma_count_verified_le_len(ps.drop_last());
    }
}

/// With an unverified property present, the verified count stays strictly
/// below the number of properties.
pub proof fn lemma_count_verified_lt_len(ps: Seq<Property>, i: int)
    requires
        0 <= i < ps.len(),
        !ps[i].is_verified,
    ensures
        count_verified(ps) < ps.len(),
    decreases ps.len(),
{
    if i == ps.len() - 1 {
        lemma_count_verified_le_len(ps.drop_last());
    } else {
        assert(ps.drop_last()[i] == ps[i]);
        lemma_count_verified_lt_len(ps.drop_last(), i);
    }
}

/// Appending a property adds one to the verified count exactly when the new
/// property is verified.
pub proof fn lemma_count_verified_push(ps: Seq<Property>, p: Property)
    ensures
        count_verified(ps.push(p)) == count_verified(ps) + if p.is_verified {
            1int
        } else {
            0int
        },
{
    assert(ps.push(p).drop_last() =~= ps);
    assert(ps.push(p).last() == p);
}

/// Replacing the property at `i` adjusts the verified count by the change
/// at that one position.
pub proof fn lemma_count_verified_update(ps: Seq<Property>, i: int, p2: Property)
    requires
        0 <= i < ps.len(),
    ensures
        count_verified(ps.update(i, p2)) == count_verified(ps) - (if ps[i].is_verified {
            1int
        } else {
            0int
        }) + (if p2.is_verified {
            1int
        } else {
            0int
        }),
    decreases ps.len(),
{
    let t = ps.update(i, p2);
    if i == ps.len() - 1 {
        assert(t.drop_last() =~= ps.drop_last());
        assert(t.last() == p2);
    } else {
        assert(t.drop_last() =~= ps.drop_last().update(i, p2));
        assert(t.last() == ps.last());
        lemma_count_verified_update(ps.drop_last(), i, p2);
    }
}

/// Replacing a record with one under the same key leaves every owner's
/// property index alone: the index reads only keys, never balances.
pub proof fn lemma_user_props_update(
    s: Seq<OwnershipShare>,
    i: int,
    h2: OwnershipShare,
    owner: AccountId,
)
    requires
        0 <= i < s.len(),
        h2.property_id == s[i].property_id,
        h2.owner == s[i].owner,
    ensures
        user_props(s.update(i, h2), owner) == user_props(s, owner),
    decreases s.len(),
{
    let t = s.update(i, h2);
    if i == s.len() - 1 {
        assert(t.drop_last() =~= s.drop_last());
        assert(t.last() == h2);
    } else {
        assert(t.drop_last() =~= s.drop_last().update(i, h2));
        assert(t.last() == s.last());
        lemma_user_props_update(s.drop_last(), i, h2, owner);
    }
}

/// Appending a record extends exactly its owner's property index, by that
/// record's property id, at the end.
pub proof fn lemma_user_props_push(s: Seq<OwnershipShare>, h2: OwnershipShare, owner: AccountId)
    ensures
        user_props(s.push(h2), owner) == if h2.owner == owner {
            user_props(s, owner).push(h2.property_id)
        } else {
            user_props(s, owner)
        },
{
    assert(s.push(h2).drop_last() =~= s);
    assert(s.push(h2).last() == h2);
}

/// The running total over a prefix never exceeds the total over a longer
/// prefix: share counts are non-negative.
pub proof fn lemma_total_owned_prefix_le(s: Seq<OwnershipShare>, owner: AccountId, i: int, j: int)
    requires
        0 <= i <= j <= s.len(),
    ensures
        total_owned(s.subrange(0, i), owner) <= total_owned(s.subrange(0, j), owner),
    decreases j - i,
{
    if i < j {
        lemma_total_owned_prefix_le(s, owner, i, j - 1);
        let t = s.subrange(0, j);
        assert(t.drop_last() =~= s.subrange(0, j - 1));
        assert(total_owned(s.subrange(0, j - 1), owner) <= total_owned(t, owner));
    }
}

} // verus!
