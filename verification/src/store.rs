//! The order and fill stores: association lists keyed by 256-bit
//! identifiers, with the spec-level lookup and accounting functions that the
//! engine's contracts and invariant are stated over.

use vstd::prelude::*;

use crate::bytes::bytes_eq;
use crate::types::{Address, CrossChainAddress, FillExecution, PartialFillOrder};

verus! {

/// One record of the order store: the order, its identifier, and the
/// identifiers of the fills created against it.
pub struct OrderEntry {
    pub id: [u8; 32],
    pub order: PartialFillOrder,
    pub fill_ids: Vec<[u8; 32]>,
}

/// One record of the fill store.
#[derive(Clone, Copy)]
pub struct FillEntry {
    pub id: [u8; 32],
    pub fill: FillExecution,
}

/// One record of the cross-chain address registry.
pub struct AddrEntry {
    pub account: Address,
    pub value: CrossChainAddress,
}

// ---------------------------------------------------------------------------
// Lookup
// ---------------------------------------------------------------------------
/// The first order entry whose identifier is `id`.
pub open spec fn spec_find_order(s: Seq<OrderEntry>, id: Seq<u8>) -> Option<OrderEntry>
    decreases s.len(),
{
    if s.len() == 0 {
        None
    } else if s[0].id@ == id {
        Some(s[0])
    } else {
        spec_find_order(s.skip(1), id)
    }
}

/// The first fill entry whose identifier is `id`.
pub open spec fn spec_find_fill(s: Seq<FillEntry>, id: Seq<u8>) -> Option<FillEntry>
    decreases s.len(),
{
    if s.len() == 0 {
        None
    } else if s[0].id@ == id {
        Some(s[0])
    } else {
        spec_find_fill(s.skip(1), id)
    }
}

/// The registered cross-chain address of `account`, if any.
pub open spec fn spec_find_addr(s: Seq<AddrEntry>, account: Seq<u8>) -> Option<CrossChainAddress>
    decreases s.len(),
{
    if s.len() == 0 {
        None
    } else if s[0].account.bytes() == account {
        Some(s[0].value)
    } else {
        spec_find_addr(s.skip(1), account)
    }
}

/// No two order entries share an identifier.
pub open spec fn order_ids_unique(s: Seq<OrderEntry>) -> bool {
    forall|i: int, j: int| 0 <= i < j < s.len() ==> s[i].id@ != s[j].id@
}

/// No two fill entries share an identifier.
pub open spec fn fill_ids_unique(s: Seq<FillEntry>) -> bool {
    forall|i: int, j: int| 0 <= i < j < s.len() ==> s[i].id@ != s[j].id@
}

/// No two registry entries share an account.
pub open spec fn addr_accounts_unique(s: Seq<AddrEntry>) -> bool {
    forall|i: int, j: int| 0 <= i < j < s.len() ==> s[i].account.bytes() != s[j].account.bytes()
}

// ---------------------------------------------------------------------------
// Accounting over the fill store
// ---------------------------------------------------------------------------
/// What one fill entry contributes to the filled amount of order `oid`:
/// its amount if it belongs to that order and has not been refunded.
pub open spec fn fill_contrib(e: FillEntry, oid: Seq<u8>) -> int {
    if e.fill.order_id@ == oid && !e.fill.refunded {
        e.fill.fill_amount as int
    } else {
        0
    }
}

/// What one fill entry contributes to the fill count of order `oid`.
pub open spec fn fill_count_contrib(e: FillEntry, oid: Seq<u8>) -> int {
    if e.fill.order_id@ == oid && !e.fill.refunded {
        1
    } else {
        0
    }
}

/// What one fill entry contributes to the fill list of order `oid`.
pub open spec fn fill_list_contrib(e: FillEntry, oid: Seq<u8>) -> Seq<Seq<u8>> {
    if e.fill.order_id@ == oid {
        seq![e.id@]
    } else {
        Seq::empty()
    }
}

/// Sum of `fill_amount` over the not-refunded fills of order `oid`.
pub open spec fn sum_active(s: Seq<FillEntry>, oid: Seq<u8>) -> int
    decreases s.len(),
{
    if s.len() == 0 {
        0
    } else {
        sum_active(s.drop_last(), oid) + fill_contrib(s.last(), oid)
    }
}

/// Number of not-refunded fills of order `oid`.
pub open spec fn count_active(s: Seq<FillEntry>, oid: Seq<u8>) -> int
    decreases s.len(),
{
    if s.len() == 0 {
        0
    } else {
        count_active(s.drop_last(), oid) + fill_count_contrib(s.last(), oid)
    }
}

/// Identifiers of every fill of order `oid`, refunded ones included, in
/// creation order.
pub open spec fn fill_ids_for(s: Seq<FillEntry>, oid: Seq<u8>) -> Seq<Seq<u8>>
    decreases s.len(),
{
    if s.len() == 0 {
        Seq::empty()
    } else {
        fill_ids_for(s.drop_last(), oid) + fill_list_contrib(s.last(), oid)
    }
}

// ---------------------------------------------------------------------------
// Lemmas about lookup
// ---------------------------------------------------------------------------
/// A lookup misses exactly when no entry carries the identifier.
pub proof fn lemma_find_order_none_iff(s: Seq<OrderEntry>, id: Seq<u8>)
    ensures
        (spec_find_order(s, id) is None) <==> (forall|i: int|
            0 <= i < s.len() ==> s[i].id@ != id),
    decreases s.len(),
{
    if s.len() > 0 {
        lemma_find_order_none_iff(s.skip(1), id);
        assert(forall|i: int| 0 <= i < s.skip(1).len() ==> s.skip(1)[i] == s[i + 1]);
        if spec_find_order(s, id) is None {
            assert forall|i: int| 0 <= i < s.len() implies s[i].id@ != id by {
                if i > 0 {
                    assert(s.skip(1)[i - 1] == s[i]);
                }
            }
        }
        if forall|i: int| 0 <= i < s.len() ==> s[i].id@ != id {
            assert forall|j: int| 0 <= j < s.skip(1).len() implies s.skip(1)[j].id@ != id by {
                assert(s.skip(1)[j] == s[j + 1]);
            }
        }
    }
}

/// A found entry carries the identifier and sits in the store.
pub proof fn lemma_find_order_found(s: Seq<OrderEntry>, id: Seq<u8>)
    requires
        spec_find_order(s, id) is Some,
    ensures
        spec_find_order(s, id) matches Some(e) && e.id@ == id && exists|i: int|
            0 <= i < s.len() && s[i] == e,
    decreases s.len(),
{
    if s[0].id@ == id {
        assert(s[0] == spec_find_order(s, id)->Some_0);
    } else {
        lemma_find_order_found(s.skip(1), id);
        let e = spec_find_order(s.skip(1), id)->Some_0;
        let i = choose|i: int| 0 <= i < s.skip(1).len() && s.skip(1)[i] == e;
        assert(s[i + 1] == e);
    }
}

/// How lookup behaves after appending an entry.
pub proof fn lemma_find_order_push(s: Seq<OrderEntry>, e: OrderEntry, k: Seq<u8>)
    ensures
        spec_find_order(s.push(e), k) == (if spec_find_order(s, k) is Some {
            spec_find_order(s, k)
        } else if e.id@ == k {
            Some(e)
        } else {
            None
        }),
    decreases s.len(),
{
    if s.len() == 0 {
        reveal_with_fuel(spec_find_order, 2);
        assert(s.push(e).len() == 1);
        assert(s.push(e)[0] == e);
        assert(s.push(e).skip(1) =~= Seq::<OrderEntry>::empty());
        if e.id@ == k {
            assert(spec_find_order(s.push(e), k) == Some(e));
        } else {
            assert(spec_find_order(s.push(e), k) is None);
        }
        assert(spec_find_order(s, k) is None);
    } else {
        lemma_find_order_push(s.skip(1), e, k);
        assert(s.push(e)[0] == s[0]);
        assert(s.push(e).len() == s.len() + 1);
        assert(s.push(e).skip(1) =~= s.skip(1).push(e));
        if s[0].id@ == k {
            assert(spec_find_order(s.push(e), k) == Some(s[0]));
            assert(spec_find_order(s, k) == Some(s[0]));
        } else {
            assert(spec_find_order(s.push(e), k) == spec_find_order(s.skip(1).push(e), k));
            assert(spec_find_order(s, k) == spec_find_order(s.skip(1), k));
        }
    }
}

/// How lookup behaves after replacing the entry at `i` by one with the same
/// identifier, and that uniqueness is preserved.
pub proof fn lemma_find_order_update(s: Seq<OrderEntry>, i: int, e: OrderEntry, k: Seq<u8>)
    requires
        order_ids_unique(s),
        0 <= i < s.len(),
        e.id@ == s[i].id@,
    ensures
        spec_find_order(s.update(i, e), k) == (if s[i].id@ == k {
            Some(e)
        } else {
            spec_find_order(s, k)
        }),
        order_ids_unique(s.update(i, e)),
    decreases s.len(),
{
    assert forall|m: int, n: int| 0 <= m < n < s.update(i, e).len() implies s.update(i, e)[m].id@
        != s.update(i, e)[n].id@ by {
        assert(s.update(i, e)[m].id@ == s[m].id@);
        assert(s.update(i, e)[n].id@ == s[n].id@);
    }
    if i == 0 {
        assert(s.update(0, e)[0] == e);
        assert(s.update(0, e).skip(1) =~= s.skip(1));
    } else {
        assert(s.update(i, e)[0] == s[0]);
        assert(s.update(i, e).skip(1) =~= s.skip(1).update(i - 1, e));
        assert forall|m: int, n: int| 0 <= m < n < s.skip(1).len() implies s.skip(1)[m].id@
            != s.skip(1)[n].id@ by {
            assert(s.skip(1)[m] == s[m + 1]);
            assert(s.skip(1)[n] == s[n + 1]);
        }
        assert(s.skip(1)[i - 1] == s[i]);
        lemma_find_order_update(s.skip(1), i - 1, e, k);
        if s[i].id@ == k {
            assert(s[0].id@ != k);
        }
    }
}

/// Mirror of `lemma_find_order_none_iff` for the fill store.
pub proof fn lemma_find_fill_none_iff(s: Seq<FillEntry>, id: Seq<u8>)
    ensures
        (spec_find_fill(s, id) is None) <==> (forall|i: int| 0 <= i < s.len() ==> s[i].id@ != id),
    decreases s.len(),
{
    if s.len() > 0 {
        lemma_find_fill_none_iff(s.skip(1), id);
        assert(forall|i: int| 0 <= i < s.skip(1).len() ==> s.skip(1)[i] == s[i + 1]);
        if spec_find_fill(s, id) is None {
            assert forall|i: int| 0 <= i < s.len() implies s[i].id@ != id by {
                if i > 0 {
                    assert(s.skip(1)[i - 1] == s[i]);
                }
            }
        }
        if forall|i: int| 0 <= i < s.len() ==> s[i].id@ != id {
            assert forall|j: int| 0 <= j < s.skip(1).len() implies s.skip(1)[j].id@ != id by {
                assert(s.skip(1)[j] == s[j + 1]);
            }
        }
    }
}

/// Mirror of `lemma_find_order_found` for the fill store.
pub proof fn lemma_find_fill_found(s: Seq<FillEntry>, id: Seq<u8>)
    requires
        spec_find_fill(s, id) is Some,
    ensures
        spec_find_fill(s, id) matches Some(e) && e.id@ == id && exists|i: int|
            0 <= i < s.len() && s[i] == e,
    decreases s.len(),
{
    if s[0].id@ == id {
        assert(s[0] == spec_find_fill(s, id)->Some_0);
    } else {
        lemma_find_fill_found(s.skip(1), id);
        let e = spec_find_fill(s.skip(1), id)->Some_0;
        let i = choose|i: int| 0 <= i < s.skip(1).len() && s.skip(1)[i] == e;
        assert(s[i + 1] == e);
    }
}

/// Mirror of `lemma_find_order_push` for the fill store.
pub proof fn lemma_find_fill_push(s: Seq<FillEntry>, e: FillEntry, k: Seq<u8>)
    ensures
        spec_find_fill(s.push(e), k) == (if spec_find_fill(s, k) is Some {
            spec_find_fill(s, k)
        } else if e.id@ == k {
            Some(e)
        } else {
            None
        }),
    decreases s.len(),
{
    if s.len() == 0 {
        reveal_with_fuel(spec_find_fill, 2);
        assert(s.push(e).len() == 1);
        assert(s.push(e)[0] == e);
        assert(s.push(e).skip(1) =~= Seq::<FillEntry>::empty());
        if e.id@ == k {
            assert(spec_find_fill(s.push(e), k) == Some(e));
        } else {
            assert(spec_find_fill(s.push(e), k) is None);
        }
        assert(spec_find_fill(s, k) is None);
    } else {
        lemma_find_fill_push(s.skip(1), e, k);
        assert(s.push(e)[0] == s[0]);
        assert(s.push(e).len() == s.len() + 1);
        assert(s.push(e).skip(1) =~= s.skip(1).push(e));
        if s[0].id@ == k {
            assert(spec_find_fill(s.push(e), k) == Some(s[0]));
            assert(spec_find_fill(s, k) == Some(s[0]));
        } else {
            assert(spec_find_fill(s.push(e), k) == spec_find_fill(s.skip(1).push(e), k));
            assert(spec_find_fill(s, k) == spec_find_fill(s.skip(1), k));
        }
    }
}

/// Mirror of `lemma_find_order_update` for the fill store.
pub proof fn lemma_find_fill_update(s: Seq<FillEntry>, i: int, e: FillEntry, k: Seq<u8>)
    requires
        fill_ids_unique(s),
        0 <= i < s.len(),
        e.id@ == s[i].id@,
    ensures
        spec_find_fill(s.update(i, e), k) == (if s[i].id@ == k {
            Some(e)
        } else {
            spec_find_fill(s, k)
        }),
        fill_ids_unique(s.update(i, e)),
    decreases s.len(),
{
    assert forall|m: int, n: int| 0 <= m < n < s.update(i, e).len() implies s.update(i, e)[m].id@
        != s.update(i, e)[n].id@ by {
        assert(s.update(i, e)[m].id@ == s[m].id@);
        assert(s.update(i, e)[n].id@ == s[n].id@);
    }
    if i == 0 {
        assert(s.update(0, e)[0] == e);
        assert(s.update(0, e).skip(1) =~= s.skip(1));
    } else {
        assert(s.update(i, e)[0] == s[0]);
        assert(s.update(i, e).skip(1) =~= s.skip(1).update(i - 1, e));
        assert forall|m: int, n: int| 0 <= m < n < s.skip(1).len() implies s.skip(1)[m].id@
            != s.skip(1)[n].id@ by {
            assert(s.skip(1)[m] == s[m + 1]);
            assert(s.skip(1)[n] == s[n + 1]);
        }
        assert(s.skip(1)[i - 1] == s[i]);
        lemma_find_fill_update(s.skip(1), i - 1, e, k);
        if s[i].id@ == k {
            assert(s[0].id@ != k);
        }
    }
}

/// Mirror of `lemma_find_order_push` for the address registry.
pub proof fn lemma_find_addr_push(s: Seq<AddrEntry>, e: AddrEntry, k: Seq<u8>)
    ensures
        spec_find_addr(s.push(e), k) == (if spec_find_addr(s, k) is Some {
            spec_find_addr(s, k)
        } else if e.account.bytes() == k {
            Some(e.value)
        } else {
            None
        }),
    decreases s.len(),
{
    if s.len() == 0 {
        reveal_with_fuel(spec_find_addr, 2);
        assert(s.push(e).len() == 1);
        assert(s.push(e)[0] == e);
        assert(s.push(e).skip(1) =~= Seq::<AddrEntry>::empty());
        if e.account.bytes() == k {
            assert(spec_find_addr(s.push(e), k) == Some(e.value));
        } else {
            assert(spec_find_addr(s.push(e), k) is None);
        }
        assert(spec_find_addr(s, k) is None);
    } else {
        lemma_find_addr_push(s.skip(1), e, k);
        assert(s.push(e)[0] == s[0]);
        assert(s.push(e).len() == s.len() + 1);
        assert(s.push(e).skip(1) =~= s.skip(1).push(e));
        if s[0].account.bytes() == k {
            assert(spec_find_addr(s.push(e), k) == Some(s[0].value));
            assert(spec_find_addr(s, k) == Some(s[0].value));
        } else {
            assert(spec_find_addr(s.push(e), k) == spec_find_addr(s.skip(1).push(e), k));
            assert(spec_find_addr(s, k) == spec_find_addr(s.skip(1), k));
        }
    }
}

/// Mirror of `lemma_find_order_none_iff` for the address registry.
pub proof fn lemma_find_addr_none_iff(s: Seq<AddrEntry>, k: Seq<u8>)
    ensures
        (spec_find_addr(s, k) is None) <==> (forall|i: int|
            0 <= i < s.len() ==> s[i].account.bytes() != k),
    decreases s.len(),
{
    if s.len() > 0 {
        lemma_find_addr_none_iff(s.skip(1), k);
        assert(forall|i: int| 0 <= i < s.skip(1).len() ==> s.skip(1)[i] == s[i + 1]);
        if spec_find_addr(s, k) is None {
            assert forall|i: int| 0 <= i < s.len() implies s[i].account.bytes() != k by {
                if i > 0 {
                    assert(s.skip(1)[i - 1] == s[i]);
                }
            }
        }
        if forall|i: int| 0 <= i < s.len() ==> s[i].account.bytes() != k {
            assert forall|j: int| 0 <= j < s.skip(1).len() implies s.skip(1)[j].account.bytes()
                != k by {
                assert(s.skip(1)[j] == s[j + 1]);
            }
        }
    }
}

/// Mirror of `lemma_find_order_update` for the address registry.
pub proof fn lemma_find_addr_update(s: Seq<AddrEntry>, i: int, e: AddrEntry, k: Seq<u8>)
    requires
        addr_accounts_unique(s),
        0 <= i < s.len(),
        e.account.bytes() == s[i].account.bytes(),
    ensures
        spec_find_addr(s.update(i, e), k) == (if s[i].account.bytes() == k {
            Some(e.value)
        } else {
            spec_find_addr(s, k)
        }),
        addr_accounts_unique(s.update(i, e)),
    decreases s.len(),
{
    assert forall|m: int, n: int| 0 <= m < n < s.update(i, e).len() implies s.update(
        i,
        e,
    )[m].account.bytes() != s.update(i, e)[n].account.bytes() by {
        assert(s.update(i, e)[m].account.bytes() == s[m].account.bytes());
        assert(s.update(i, e)[n].account.bytes() == s[n].account.bytes());
    }
    if i == 0 {
        assert(s.update(0, e)[0] == e);
        assert(s.update(0, e).skip(1) =~= s.skip(1));
    } else {
        assert(s.update(i, e)[0] == s[0]);
        assert(s.update(i, e).skip(1) =~= s.skip(1).update(i - 1, e));
        assert forall|m: int, n: int| 0 <= m < n < s.skip(1).len() implies s.skip(
            1,
        )[m].account.bytes() != s.skip(1)[n].account.bytes() by {
            assert(s.skip(1)[m] == s[m + 1]);
            assert(s.skip(1)[n] == s[n + 1]);
        }
        assert(s.skip(1)[i - 1] == s[i]);
        lemma_find_addr_update(s.skip(1), i - 1, e, k);
        if s[i].account.bytes() == k {
            assert(s[0].account.bytes() != k);
        }
    }
}

// ---------------------------------------------------------------------------
// Lemmas about accounting
// ---------------------------------------------------------------------------
/// Appending a fill adds its contribution to sum, count and list.
pub proof fn lemma_accounting_push(s: Seq<FillEntry>, e: FillEntry, oid: Seq<u8>)
    ensures
        sum_active(s.push(e), oid) == sum_active(s, oid) + fill_contrib(e, oid),
        count_active(s.push(e), oid) == count_active(s, oid) + fill_count_contrib(e, oid),
        fill_ids_for(s.push(e), oid) == fill_ids_for(s, oid) + fill_list_contrib(e, oid),
{
    assert(s.push(e).drop_last() =~= s);
    assert(s.push(e).last() == e);
}

/// Replacing the fill at `i` swaps its contribution to sum and count.
pub proof fn lemma_accounting_update(s: Seq<FillEntry>, i: int, e: FillEntry, oid: Seq<u8>)
    requires
        0 <= i < s.len(),
    ensures
        sum_active(s.update(i, e), oid) == sum_active(s, oid) - fill_contrib(s[i], oid)
            + fill_contrib(e, oid),
        count_active(s.update(i, e), oid) == count_active(s, oid) - fill_count_contrib(s[i], oid)
            + fill_count_contrib(e, oid),
        fill_list_contrib(e, oid) == fill_list_contrib(s[i], oid) ==> fill_ids_for(
            s.update(i, e),
            oid,
        ) == fill_ids_for(s, oid),
    decreases s.len(),
{
    if i == s.len() - 1 {
        assert(s.update(i, e).drop_last() =~= s.drop_last());
        assert(s.update(i, e).last() == e);
        assert(s.last() == s[i]);
    } else {
        assert(s.update(i, e).drop_last() =~= s.drop_last().update(i, e));
        assert(s.update(i, e).last() == s.last());
        assert(s.drop_last()[i] == s[i]);
        lemma_accounting_update(s.drop_last(), i, e, oid);
    }
}

/// A store with no fill of order `oid` contributes nothing to it.
pub proof fn lemma_accounting_no_match(s: Seq<FillEntry>, oid: Seq<u8>)
    requires
        forall|j: int| 0 <= j < s.len() ==> s[j].fill.order_id@ != oid,
    ensures
        sum_active(s, oid) == 0,
        count_active(s, oid) == 0,
        fill_ids_for(s, oid) == Seq::<Seq<u8>>::empty(),
    decreases s.len(),
{
    if s.len() > 0 {
        assert(forall|j: int| 0 <= j < s.drop_last().len() ==> s.drop_last()[j] == s[j]);
        lemma_accounting_no_match(s.drop_last(), oid);
        assert(s.last() == s[s.len() - 1]);
        assert(fill_ids_for(s, oid) =~= Seq::<Seq<u8>>::empty());
    }
}

/// Sum and count are never negative.
pub proof fn lemma_accounting_nonneg(s: Seq<FillEntry>, oid: Seq<u8>)
    ensures
        sum_active(s, oid) >= 0,
        count_active(s, oid) >= 0,
    decreases s.len(),
{
    if s.len() > 0 {
        lemma_accounting_nonneg(s.drop_last(), oid);
    }
}

/// A not-refunded fill of order `oid` bounds that order's sum and count from
/// below.
pub proof fn lemma_accounting_member(s: Seq<FillEntry>, j: int, oid: Seq<u8>)
    requires
        0 <= j < s.len(),
        s[j].fill.order_id@ == oid,
        !s[j].fill.refunded,
    ensures
        sum_active(s, oid) >= s[j].fill.fill_amount + sum_active(s.update(j, refunded_mark(s[j])), oid),
        sum_active(s, oid) >= s[j].fill.fill_amount,
        count_active(s, oid) >= 1,
    decreases s.len(),
{
    lemma_accounting_update(s, j, refunded_mark(s[j]), oid);
    lemma_accounting_nonneg(s.update(j, refunded_mark(s[j])), oid);
    lemma_accounting_nonneg(s, oid);
    if j == s.len() - 1 {
        assert(s.last() == s[j]);
        lemma_accounting_nonneg(s.drop_last(), oid);
    } else {
        assert(s.drop_last()[j] == s[j]);
        lemma_accounting_member(s.drop_last(), j, oid);
        assert(fill_contrib(s.last(), oid) >= 0);
        assert(fill_count_contrib(s.last(), oid) >= 0);
    }
}

/// The given fill with its refunded flag set.
pub open spec fn refunded_mark(e: FillEntry) -> FillEntry {
    FillEntry { id: e.id, fill: FillExecution { refunded: true, ..e.fill } }
}

// ---------------------------------------------------------------------------
// Executable lookup
// ---------------------------------------------------------------------------
/// Index of the order entry with identifier `id`, if present.
pub fn find_order_index(s: &Vec<OrderEntry>, id: &[u8; 32]) -> (r: Option<usize>)
    ensures
        match r {
            Some(i) => 0 <= i < s@.len() && s@[i as int].id@ == id@ && spec_find_order(s@, id@)
                == Some(s@[i as int]),
            None => spec_find_order(s@, id@) is None,
        },
{
    let n = s.len();
    let mut i: usize = 0;
    proof {
        assert(s@.skip(0) =~= s@);
    }
    while i < n
        invariant
            0 <= i <= n,
            n == s@.len(),
            spec_find_order(s@, id@) == spec_find_order(s@.skip(i as int), id@),
        decreases n - i,
    {
        if bytes_eq(&s[i].id, id) {
            proof {
                assert(s@.skip(i as int)[0] == s@[i as int]);
            }
            return Some(i);
        }
        proof {
            assert(s@.skip(i as int)[0] == s@[i as int]);
            assert(s@.skip(i as int).skip(1) =~= s@.skip(i + 1));
        }
        i += 1;
    }
    proof {
        assert(s@.skip(n as int) =~= Seq::<OrderEntry>::empty());
    }
    None
}

/// Index of the fill entry with identifier `id`, if present.
pub fn find_fill_index(s: &Vec<FillEntry>, id: &[u8; 32]) -> (r: Option<usize>)
    ensures
        match r {
            Some(i) => 0 <= i < s@.len() && s@[i as int].id@ == id@ && spec_find_fill(s@, id@)
                == Some(s@[i as int]),
            None => spec_find_fill(s@, id@) is None,
        },
{
    let n = s.len();
    let mut i: usize = 0;
    proof {
        assert(s@.skip(0) =~= s@);
    }
    while i < n
        invariant
            0 <= i <= n,
            n == s@.len(),
            spec_find_fill(s@, id@) == spec_find_fill(s@.skip(i as int), id@),
        decreases n - i,
    {
        if bytes_eq(&s[i].id, id) {
            proof {
                assert(s@.skip(i as int)[0] == s@[i as int]);
            }
            return Some(i);
        }
        proof {
            assert(s@.skip(i as int)[0] == s@[i as int]);
            assert(s@.skip(i as int).skip(1) =~= s@.skip(i + 1));
        }
        i += 1;
    }
    proof {
        assert(s@.skip(n as int) =~= Seq::<FillEntry>::empty());
    }
    None
}

/// Index of the registry entry for `account`, if present.
pub fn find_addr_index(s: &Vec<AddrEntry>, account: &Address) -> (r: Option<usize>)
    ensures
        match r {
            Some(i) => 0 <= i < s@.len() && s@[i as int].account.bytes() == account.bytes()
                && spec_find_addr(s@, account.bytes()) == Some(s@[i as int].value),
            None => spec_find_addr(s@, account.bytes()) is None,
        },
{
    let n = s.len();
    let mut i: usize = 0;
    proof {
        assert(s@.skip(0) =~= s@);
    }
    while i < n
        invariant
            0 <= i <= n,
            n == s@.len(),
            spec_find_addr(s@, account.bytes()) == spec_find_addr(
                s@.skip(i as int),
                account.bytes(),
            ),
        decreases n - i,
    {
        if bytes_eq(&s[i].account.0, &account.0) {
            proof {
                assert(s@.skip(i as int)[0] == s@[i as int]);
            }
            return Some(i);
        }
        proof {
            assert(s@.skip(i as int)[0] == s@[i as int]);
            assert(s@.skip(i as int).skip(1) =~= s@.skip(i + 1));
        }
        i += 1;
    }
    proof {
        assert(s@.skip(n as int) =~= Seq::<AddrEntry>::empty());
    }
    None
}

/// A mutable borrow of the order entry at `i`.
pub fn order_at_mut(s: &mut Vec<OrderEntry>, i: usize) -> (e: &mut OrderEntry)
    requires
        0 <= i < old(s)@.len(),
    ensures
        *e == old(s)@[i as int],
        final(s)@ == old(s)@.update(i as int, *final(e)),
{
    &mut s[i]
}

/// A mutable borrow of the fill entry at `i`.
pub fn fill_at_mut(s: &mut Vec<FillEntry>, i: usize) -> (e: &mut FillEntry)
    requires
        0 <= i < old(s)@.len(),
    ensures
        *e == old(s)@[i as int],
        final(s)@ == old(s)@.update(i as int, *final(e)),
{
    &mut s[i]
}

/// A mutable borrow of the registry entry at `i`.
pub fn addr_at_mut(s: &mut Vec<AddrEntry>, i: usize) -> (e: &mut AddrEntry)
    requires
        0 <= i < old(s)@.len(),
    ensures
        *e == old(s)@[i as int],
        final(s)@ == old(s)@.update(i as int, *final(e)),
{
    &mut s[i]
}

} // verus!
