//! The durable state of the ledger: a model of the host's persistent
//! key-value store holding the two entries this component owns, each with
//! an expiration horizon, together with the host's ledger sequence counter.

use vstd::prelude::*;

verus! {

/// An opaque account identifier, as the host hands it to the component.
#[derive(Clone, Copy, PartialEq, Eq, Structural, Debug)]
pub struct Address {
    pub id: u64,
}

/// The discriminator under which each durable entry is keyed.
#[derive(Clone, Copy, PartialEq, Eq, Structural, Debug)]
pub enum DataKey {
    /// Cumulative sum of all disbursed amounts.
    TotalSent,
    /// The recipient of the most recent disbursement.
    LastChild,
}

/// One durable entry: a stored value and the ledger sequence up to which
/// the entry stays live. Once the sequence passes `live_until`, the host
/// evicts the entry and reads observe absence.
pub struct Entry<V> {
    pub value: V,
    pub live_until: u64,
}

/// The persistent store as this component sees it: its two entries and
/// the current ledger sequence number, which only ever moves forward.
pub struct Env {
    pub sequence: u64,
    pub total_sent: Option<Entry<u32>>,
    pub last_child: Option<Entry<Address>>,
}

/// The horizon an entry holds after a renewal request: if at least
/// `threshold` ledger steps remain, the horizon is untouched; otherwise it
/// is extended to `extend_to` steps past the current sequence (saturating
/// at the top of the sequence range).
pub open spec fn renewed_horizon(live_until: u64, sequence: u64, threshold: u64, extend_to: u64) -> u64 {
    if live_until - sequence >= threshold {
        live_until
    } else if extend_to <= u64::MAX - sequence {
        (sequence + extend_to) as u64
    } else {
        u64::MAX
    }
}

impl Env {
    /// Every entry that is present is live: its horizon has not fallen
    /// behind the current ledger sequence.
    pub open spec fn wf(self) -> bool {
        &&& (self.total_sent matches Some(e) ==> e.live_until >= self.sequence)
        &&& (self.last_child matches Some(e) ==> e.live_until >= self.sequence)
    }

    /// The two entries move together: both absent (no disbursement has
    /// ever happened) or both present with the same horizon, since every
    /// write touches and renews both at once.
    pub open spec fn paired(self) -> bool {
        match (self.total_sent, self.last_child) {
            (None, None) => true,
            (Some(t), Some(c)) => t.live_until == c.live_until,
            _ => false,
        }
    }

    /// The state invariant: established by `new`, preserved by every
    /// operation of the component.
    pub open spec fn inv(self) -> bool {
        self.wf() && self.paired()
    }

    /// What a lookup of the cumulative total observes.
    pub open spec fn stored_total(self) -> Option<u32> {
        match self.total_sent {
            Some(e) => Some(e.value),
            None => None,
        }
    }

    /// The cumulative total with the absent default substituted.
    pub open spec fn spec_total_sent(self) -> u32 {
        match self.total_sent {
            Some(e) => e.value,
            None => 0,
        }
    }

    /// What a lookup of the most recent recipient observes.
    pub open spec fn spec_last_child(self) -> Option<Address> {
        match self.last_child {
            Some(e) => Some(e.value),
            None => None,
        }
    }

    /// The store after the cumulative total is written: the value is
    /// overwritten; a fresh entry starts live for the current ledger step
    /// alone, an existing entry keeps its horizon (writes do not renew by
    /// themselves; renewal is a separate request).
    pub open spec fn after_write_total(self, value: u32) -> Env {
        let live_until: u64 = match self.total_sent {
            Some(e) => e.live_until,
            None => self.sequence,
        };
        Env { total_sent: Some(Entry { value, live_until }), ..self }
    }

    /// The store after the most recent recipient is written; horizons
    /// behave as in `after_write_total`.
    pub open spec fn after_write_last_child(self, child: Address) -> Env {
        let live_until: u64 = match self.last_child {
            Some(e) => e.live_until,
            None => self.sequence,
        };
        Env { last_child: Some(Entry { value: child, live_until }), ..self }
    }

    /// The store after a renewal request for one entry.
    pub open spec fn after_extend_ttl(self, key: DataKey, threshold: u64, extend_to: u64) -> Env {
        match key {
            DataKey::TotalSent => (match self.total_sent {
                Some(e) => (Env {
                    total_sent: Some(Entry {
                        value: e.value,
                        live_until: renewed_horizon(e.live_until, self.sequence, threshold, extend_to),
                    }),
                    ..self
                }),
                None => self,
            }),
            DataKey::LastChild => (match self.last_child {
                Some(e) => (Env {
                    last_child: Some(Entry {
                        value: e.value,
                        live_until: renewed_horizon(e.live_until, self.sequence, threshold, extend_to),
                    }),
                    ..self
                }),
                None => self,
            }),
        }
    }

    /// The store after the ledger sequence advances: entries whose horizon
    /// the new sequence has passed are evicted.
    pub open spec fn after_advance(self, steps: u64) -> Env {
        let sequence: u64 = (self.sequence + steps) as u64;
        Env {
            sequence,
            total_sent: match self.total_sent {
                Some(e) => if e.live_until >= sequence { Some(e) } else { None },
                None => None,
            },
            last_child: match self.last_child {
                Some(e) => if e.live_until >= sequence { Some(e) } else { None },
                None => None,
            },
        }
    }

    /// A store in which no disbursement has ever been recorded.
    pub fn new() -> (e: Env)
        ensures
            e.sequence == 0,
            e.total_sent is None,
            e.last_child is None,
            e.inv(),
            e.spec_total_sent() == 0,
            e.spec_last_child() is None,
    {
        Env { sequence: 0, total_sent: None, last_child: None }
    }

    /// Look up the cumulative total; absence is reported, not defaulted.
    pub fn read_total(&self) -> (r: Option<u32>)
        ensures
            r == self.stored_total(),
    {
        match &self.total_sent {
            Some(e) => Some(e.value),
            None => None,
        }
    }

    /// Look up the most recent recipient.
    pub fn read_last_child(&self) -> (r: Option<Address>)
        ensures
            r == self.spec_last_child(),
    {
        match &self.last_child {
            Some(e) => Some(e.value),
            None => None,
        }
    }

    /// Overwrite the cumulative total.
    pub fn write_total(&mut self, value: u32)
        ensures
            *final(self) == old(self).after_write_total(value),
    {
        let live_until: u64 = match &self.total_sent {
            Some(e) => e.live_until,
            None => self.sequence,
        };
        self.total_sent = Some(Entry { value, live_until });
    }

    /// Overwrite the most recent recipient.
    pub fn write_last_child(&mut self, child: Address)
        ensures
            *final(self) == old(self).after_write_last_child(child),
    {
        let live_until: u64 = match &self.last_child {
            Some(e) => e.live_until,
            None => self.sequence,
        };
        self.last_child = Some(Entry { value: child, live_until });
    }

    /// Renew the horizon of one present entry: if fewer than `threshold`
    /// ledger steps remain, extend it to `extend_to` steps from now.
    pub fn extend_ttl(&mut self, key: DataKey, threshold: u64, extend_to: u64)
        requires
            threshold <= extend_to,
            old(self).wf(),
            key is TotalSent ==> old(self).total_sent is Some,
            key is LastChild ==> old(self).last_child is Some,
        ensures
            *final(self) == old(self).after_extend_ttl(key, threshold, extend_to),
    {
        match key {
            DataKey::TotalSent => {
                let current: Option<(u32, u64)> = match &self.total_sent {
                    Some(e) => Some((e.value, e.live_until)),
                    None => None,
                };
                match current {
                    Some((value, live_until)) => {
                        if live_until - self.sequence < threshold {
                            let renewed: u64 = if extend_to <= u64::MAX - self.sequence {
                                self.sequence + extend_to
                            } else {
                                u64::MAX
                            };
                            self.total_sent = Some(Entry { value, live_until: renewed });
                        }
                    }
                    None => {}
                }
            }
            DataKey::LastChild => {
                let current: Option<(Address, u64)> = match &self.last_child {
                    Some(e) => Some((e.value, e.live_until)),
                    None => None,
                };
                match current {
                    Some((value, live_until)) => {
                        if live_until - self.sequence < threshold {
                            let renewed: u64 = if extend_to <= u64::MAX - self.sequence {
                                self.sequence + extend_to
                            } else {
                                u64::MAX
                            };
                            self.last_child = Some(Entry { value, live_until: renewed });
                        }
                    }
                    None => {}
                }
            }
        }
    }

    /// The host's clock: move the ledger sequence forward and evict every
    /// entry whose horizon the new sequence has passed.
    pub fn advance_ledger(&mut self, steps: u64)
        requires
            old(self).sequence + steps <= u64::MAX,
        ensures
            *final(self) == old(self).after_advance(steps),
            final(self).sequence == old(self).sequence + steps,
            old(self).inv() ==> final(self).inv(),
    {
        self.sequence = self.sequence + steps;
        let evict_total: bool = match &self.total_sent {
            Some(e) => e.live_until < self.sequence,
            None => false,
        };
        if evict_total {
            self.total_sent = None;
        }
        let evict_child: bool = match &self.last_child {
            Some(e) => e.live_until < self.sequence,
            None => false,
        };
        if evict_child {
            self.last_child = None;
        }
    }
}

} // verus!
