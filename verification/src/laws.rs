//! Laws of the component as a whole: how whole sequences of
//! disbursements, repeated disbursements, and expiration of the durable
//! entries behave.

use vstd::prelude::*;

use crate::contract::{lemma_send_effect, sent_state};
use crate::storage::{Address, Env};

verus! {

/// The sum of the amounts of a sequence of disbursements, each given as
/// a recipient paired with an amount.
pub open spec fn sum_amounts(ds: Seq<(Address, u32)>) -> int
    decreases ds.len(),
{
    if ds.len() == 0 {
        0
    } else {
        sum_amounts(ds.drop_last()) + ds.last().1
    }
}

/// The store after a whole sequence of disbursements is applied in order.
pub open spec fn applied(e: Env, ds: Seq<(Address, u32)>) -> Env
    decreases ds.len(),
{
    if ds.len() == 0 {
        e
    } else {
        sent_state(applied(e, ds.drop_last()), ds.last().0, ds.last().1)
    }
}

/// The running sum never leaves the total's range: every prefix of the
/// sequence keeps the cumulative total at or below its maximum.
pub open spec fn sums_stay_in_range(e: Env, ds: Seq<(Address, u32)>) -> bool {
    forall|i: int|
        0 <= i <= ds.len() ==> e.spec_total_sent() + sum_amounts(#[trigger] ds.take(i))
            <= u32::MAX
}

/// Applying a sequence of disbursements whose running sum stays in range
/// adds exactly the sum of the amounts to the total, and leaves the
/// recipient of the last disbursement as the last child.
pub proof fn lemma_disbursement_sequence(e: Env, ds: Seq<(Address, u32)>)
    requires
        e.inv(),
        sums_stay_in_range(e, ds),
    ensures
        applied(e, ds).inv(),
        applied(e, ds).spec_total_sent() == e.spec_total_sent() + sum_amounts(ds),
        ds.len() > 0 ==> applied(e, ds).spec_last_child() == (Some(ds.last().0)),
        ds.len() == 0 ==> applied(e, ds) == e,
        applied(e, ds).sequence == e.sequence,
    decreases ds.len(),
{
    if ds.len() > 0 {
        let prefix = ds.drop_last();
        assert forall|i: int|
            0 <= i <= prefix.len() implies e.spec_total_sent() + sum_amounts(
            #[trigger] prefix.take(i),
        ) <= u32::MAX by {
            assert(prefix.take(i) =~= ds.take(i));
        }
        lemma_disbursement_sequence(e, prefix);
        assert(ds.take(ds.len() as int) =~= ds);
        assert(e.spec_total_sent() + sum_amounts(ds) <= u32::MAX);
        lemma_send_effect(applied(e, prefix), ds.last().0, ds.last().1);
    }
}

/// Repeating a disbursement is not a no-op: sending the same amount to
/// the same recipient twice adds the amount twice.
pub proof fn lemma_repeated_send_doubles(e: Env, child: Address, amount: u32)
    requires
        e.inv(),
        e.spec_total_sent() + amount + amount <= u32::MAX,
    ensures
        sent_state(sent_state(e, child, amount), child, amount).spec_total_sent()
            == e.spec_total_sent() + 2 * amount,
        sent_state(sent_state(e, child, amount), child, amount).spec_last_child() == (Some(
            child,
        )),
{
    lemma_send_effect(e, child, amount);
    lemma_send_effect(sent_state(e, child, amount), child, amount);
}

/// If the ledger advances past the horizon of the present entries with no
/// renewing write in between, both entries are evicted and reads observe
/// the defaults again, as in a store that never saw a disbursement.
pub proof fn lemma_expiration(e: Env, steps: u64)
    requires
        e.inv(),
        e.sequence + steps <= u64::MAX,
        e.total_sent matches Some(en) && en.live_until < e.sequence + steps,
    ensures
        e.after_advance(steps).inv(),
        e.after_advance(steps).total_sent is None,
        e.after_advance(steps).last_child is None,
        e.after_advance(steps).spec_total_sent() == 0,
        e.after_advance(steps).spec_last_child() is None,
{
}

} // verus!
