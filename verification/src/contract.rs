//! The allowance component itself: record a disbursement with a
//! read-modify-write of the durable store, and read the two entries back.

use vstd::prelude::*;

use crate::storage::{Address, DataKey, Env};

verus! {

/// Minimum remaining horizon under which a write renews an entry,
/// in ledger steps.
pub const TTL_THRESHOLD: u64 = 100;

/// Horizon an entry is extended to when it is renewed, in ledger steps
/// past the current sequence.
pub const TTL_EXTEND_TO: u64 = 100;

/// How a disbursement can fail.
#[derive(Clone, Copy, PartialEq, Eq, Structural, Debug)]
pub enum AllowanceError {
    /// Adding the amount would take the cumulative total past the top of
    /// its range; the whole disbursement is abandoned.
    Overflow,
}

/// The store after one successful disbursement of `amount` to `child`:
/// the total is rewritten with the amount added, the recipient entry is
/// overwritten, and both entries have their horizons renewed.
pub open spec fn sent_state(e: Env, child: Address, amount: u32) -> Env {
    e.after_write_total(((e.spec_total_sent() + amount) as u32))
        .after_write_last_child(child)
        .after_extend_ttl(DataKey::TotalSent, TTL_THRESHOLD, TTL_EXTEND_TO)
        .after_extend_ttl(DataKey::LastChild, TTL_THRESHOLD, TTL_EXTEND_TO)
}

/// A successful disbursement keeps the state invariant, adds exactly the
/// amount to the total, overwrites the last recipient, and leaves the
/// ledger sequence alone.
pub proof fn lemma_send_effect(e: Env, child: Address, amount: u32)
    requires
        e.inv(),
        e.spec_total_sent() + amount <= u32::MAX,
    ensures
        sent_state(e, child, amount).inv(),
        sent_state(e, child, amount).total_sent is Some,
        sent_state(e, child, amount).last_child is Some,
        sent_state(e, child, amount).spec_total_sent() == e.spec_total_sent() + amount,
        sent_state(e, child, amount).spec_last_child() == (Some(child)),
        sent_state(e, child, amount).sequence == e.sequence,
{
}

/// The component: a stateless dispatcher over the durable store.
pub struct AllowanceContract;

impl AllowanceContract {
    /// The new cumulative total after an `amount` is disbursed on top of
    /// `current`, or the failure that abandons the disbursement when the
    /// sum would leave the total's range.
    pub fn next_total(current: u32, amount: u32) -> (r: Result<u32, AllowanceError>)
        ensures
            r is Ok <==> current + amount <= u32::MAX,
            r matches Ok(t) ==> t == current + amount,
            r is Err ==> r == Err::<u32, AllowanceError>(AllowanceError::Overflow),
    {
        if amount > u32::MAX - current {
            Err(AllowanceError::Overflow)
        } else {
            Ok(current + amount)
        }
    }

    /// Record one disbursement of `amount` to `child_address`: add the
    /// amount to the cumulative total, remember the recipient, and renew
    /// both entries' horizons. If the addition would overflow, nothing
    /// changes and the failure is surfaced.
    pub fn send_allowance(env: &mut Env, child_address: Address, amount: u32) -> (r: Result<
        (),
        AllowanceError,
    >)
        requires
            old(env).inv(),
        ensures
            final(env).inv(),
            final(env).sequence == old(env).sequence,
            final(env).spec_total_sent() >= old(env).spec_total_sent(),
            r is Ok <==> old(env).spec_total_sent() + amount <= u32::MAX,
            r is Ok ==> *final(env) == sent_state(*old(env), child_address, amount),
            r is Ok ==> final(env).spec_total_sent() == old(env).spec_total_sent() + amount,
            r is Ok ==> final(env).spec_last_child() == (Some(child_address)),
            r is Err ==> *final(env) == *old(env) && r == Err::<(), AllowanceError>(
                AllowanceError::Overflow,
            ),
    {
        let ghost env0: Env = *env;
        let current_total: u32 = match env.read_total() {
            Some(t) => t,
            None => 0,
        };
        let new_total: u32 = match Self::next_total(current_total, amount) {
            Ok(t) => t,
            Err(e) => {
                return Err(e);
            }
        };
        env.write_total(new_total);
        env.write_last_child(child_address);
        env.extend_ttl(DataKey::TotalSent, TTL_THRESHOLD, TTL_EXTEND_TO);
        env.extend_ttl(DataKey::LastChild, TTL_THRESHOLD, TTL_EXTEND_TO);
        proof {
            lemma_send_effect(env0, child_address, amount);
        }
        Ok(())
    }

    /// The cumulative total disbursed so far; an absent entry reads as 0.
    pub fn get_total_sent(env: &Env) -> (r: u32)
        ensures
            r == env.spec_total_sent(),
    {
        match env.read_total() {
            Some(t) => t,
            None => 0,
        }
    }

    /// The recipient of the most recent disbursement, if any entry is
    /// present.
    pub fn get_last_child(env: &Env) -> (r: Option<Address>)
        ensures
            r == env.spec_last_child(),
    {
        env.read_last_child()
    }
}

} // verus!
