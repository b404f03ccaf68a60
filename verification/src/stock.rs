use vstd::prelude::*;
use crate::guid::ObjectGuid;
use crate::vendor::{refill_of, vendor_buy_stock_refill_count};

verus! {

/// The remaining stock of one limited vendor item, and when it was last restocked.
#[derive(Clone, Copy, Debug, PartialEq, Eq, Structural)]
pub struct VendorItemCount {
    pub vendor_guid: ObjectGuid,
    pub item_id: u32,
    pub count: u32,
    pub last_increment_time: u64,
}

/// The stock record that a sequence holds for (vendor, item), the last one written.
pub open spec fn record_of(s: Seq<VendorItemCount>, vendor: ObjectGuid, item_id: u32) -> Option<
    (u32, u64),
>
    decreases s.len(),
{
    if s.len() == 0 {
        None
    } else if s.last().vendor_guid == vendor && s.last().item_id == item_id {
        Some((s.last().count, s.last().last_increment_time))
    } else {
        record_of(s.drop_last(), vendor, item_id)
    }
}

/// The stock of an item at time `now`, restocked from its record (full when
/// there is no record, none at all for an unlimited item).
pub open spec fn current_count_at(
    rec: Option<(u32, u64)>,
    now: u64,
    max_count: u32,
    incr_time: u32,
    buy_count: u32,
) -> u32 {
    if max_count == 0 {
        0
    } else {
        match rec {
            None => max_count,
            Some((count, last)) => {
                let elapsed = if now >= last {
                    (now - last) as u64
                } else {
                    0u64
                };
                let refill = refill_of(count, elapsed, incr_time, buy_count, max_count);
                if refill.1 {
                    max_count
                } else {
                    refill.0
                }
            },
        }
    }
}

/// `a` less `b`, stopping at zero.
pub open spec fn sat_sub(a: u32, b: u32) -> u32 {
    if a >= b {
        (a - b) as u32
    } else {
        0
    }
}

/// The clock of the machine, as std keeps it.
#[verifier::external_type_specification]
#[verifier::external_body]
pub struct ExSystemTime(std::time::SystemTime);

/// The current time.
///
/// Calls `std::time::SystemTime::now`. Nothing is promised of the value: it is
/// the machine's clock.
#[verifier::external_body]
fn system_time_now() -> std::time::SystemTime {
    std::time::SystemTime::now()
}

/// How long after the Unix epoch `t` is, or `None` when `t` is before it.
///
/// Calls `SystemTime::duration_since(UNIX_EPOCH)`, which fails exactly when
/// `t` is earlier than the epoch; nothing more is promised of the duration.
#[verifier::external_body]
fn since_unix_epoch(t: &std::time::SystemTime) -> Option<std::time::Duration> {
    match t.duration_since(std::time::UNIX_EPOCH) {
        Ok(d) => Some(d),
        Err(_) => None,
    }
}

/// The whole seconds of a duration.
///
/// Calls `Duration::as_secs`; the duration is opaque here, so nothing is
/// promised of the number.
#[verifier::external_body]
fn duration_whole_secs(d: &std::time::Duration) -> u64 {
    d.as_secs()
}

/// The current time in seconds since the Unix epoch, 0 when the clock reads
/// before it.
fn vendor_stock_now_secs() -> u64 {
    match since_unix_epoch(&system_time_now()) {
        Some(d) => duration_whole_secs(&d),
        None => 0,
    }
}

/// The stock of limited vendor items that players have bought from; an item
/// without a record is fully stocked. Each (vendor, item) has at most one
/// record: writing one replaces the earlier one.
pub struct VendorStock {
    records: Vec<VendorItemCount>,
}

/// Whether two stock records are about the same (vendor, item).
pub open spec fn same_key(a: VendorItemCount, b: VendorItemCount) -> bool {
    a.vendor_guid == b.vendor_guid && a.item_id == b.item_id
}

/// A sequence of stock records with at most one record per (vendor, item).
pub open spec fn keys_unique(s: Seq<VendorItemCount>) -> bool {
    forall|a: int, b: int| 0 <= a < b < s.len() ==> !same_key(#[trigger] s[a], #[trigger] s[b])
}

proof fn lemma_record_none_absent(s: Seq<VendorItemCount>, vendor: ObjectGuid, item_id: u32)
    requires
        record_of(s, vendor, item_id) is None,
    ensures
        forall|k: int| 0 <= k < s.len() ==> !(#[trigger] s[k].vendor_guid == vendor && s[k].item_id == item_id),
    decreases s.len(),
{
    if s.len() > 0 {
        lemma_record_none_absent(s.drop_last(), vendor, item_id);
        assert forall|k: int| 0 <= k < s.len() implies !(#[trigger] s[k].vendor_guid == vendor
            && s[k].item_id == item_id) by {
            if k < s.len() - 1 {
                assert(s[k] == s.drop_last()[k]);
            }
        }
    }
}

impl VendorStock {
    #[verifier::type_invariant]
    spec fn wf(self) -> bool {
        keys_unique(self.records@)
    }

    /// The record of (vendor, item), if there is one.
    pub closed spec fn record(&self, vendor: ObjectGuid, item_id: u32) -> Option<(u32, u64)> {
        record_of(self.records@, vendor, item_id)
    }

    pub fn new() -> (s: VendorStock)
        ensures
            forall|v: ObjectGuid, i: u32| #[trigger] s.record(v, i) is None,
    {
        VendorStock { records: Vec::new() }
    }

    pub fn get(&self, vendor: ObjectGuid, item_id: u32) -> (r: Option<(u32, u64)>)
        ensures
            r == self.record(vendor, item_id),
    {
        let mut found: Option<(u32, u64)> = None;
        let mut i: usize = 0;
        while i < self.records.len()
            invariant
                i <= self.records.len(),
                found == record_of(self.records@.take(i as int), vendor, item_id),
            decreases self.records.len() - i,
        {
            proof {
                assert(self.records@.take(i + 1).drop_last() =~= self.records@.take(i as int));
            }
            let r = self.records[i];
            if r.vendor_guid.high == vendor.high && r.vendor_guid.low == vendor.low && r.item_id
                == item_id {
                found = Some((r.count, r.last_increment_time));
            }
            i = i + 1;
        }
        proof {
            assert(self.records@.take(i as int) =~= self.records@);
        }
        found
    }

    /// Forgets the record of (vendor, item); other records stay.
    pub fn remove(&mut self, vendor: ObjectGuid, item_id: u32)
        ensures
            final(self).record(vendor, item_id) is None,
            forall|v: ObjectGuid, i: u32|
                !(v == vendor && i == item_id) ==> #[trigger] final(self).record(v, i) == old(
                    self,
                ).record(v, i),
    {
        proof {
            use_type_invariant(&*self);
        }
        let mut kept: Vec<VendorItemCount> = Vec::new();
        let mut i: usize = 0;
        while i < self.records.len()
            invariant
                i <= self.records.len(),
                keys_unique(self.records@),
                keys_unique(kept@),
                forall|k: int| 0 <= k < kept@.len() ==> exists|j: int| 0 <= j < i && #[trigger] kept@[k] == self.records@[j],
                record_of(kept@, vendor, item_id) is None,
                forall|v: ObjectGuid, it: u32|
                    !(v == vendor && it == item_id) ==> #[trigger] record_of(kept@, v, it)
                        == record_of(self.records@.take(i as int), v, it),
            decreases self.records.len() - i,
        {
            proof {
                assert(self.records@.take(i + 1).drop_last() =~= self.records@.take(i as int));
            }
            let r = self.records[i];
            proof {
                assert(self.records@.take(i + 1).last() == r);
            }
            let ghost before = kept@;
            if !(r.vendor_guid.high == vendor.high && r.vendor_guid.low == vendor.low && r.item_id
                == item_id) {
                kept.push(r);
                proof {
                    assert forall|a: int, b: int| 0 <= a < b < kept@.len() implies !same_key(
                        #[trigger] kept@[a],
                        #[trigger] kept@[b],
                    ) by {
                        if b == kept@.len() - 1 {
                            let j = choose|j: int| 0 <= j < i && #[trigger] before[a] == self.records@[j];
                            assert(kept@[a] == before[a]);
                            assert(self.records@[j] == kept@[a]);
                            assert(!same_key(self.records@[j], self.records@[i as int]));
                        } else {
                            assert(kept@[a] == before[a]);
                            assert(kept@[b] == before[b]);
                        }
                    }
                    assert forall|k: int| 0 <= k < kept@.len() implies exists|j: int|
                        0 <= j < i + 1 && #[trigger] kept@[k] == self.records@[j] by {
                        if k == kept@.len() - 1 {
                            assert(kept@[k] == self.records@[i as int]);
                        } else {
                            assert(kept@[k] == before[k]);
                            let j = choose|j: int| 0 <= j < i && #[trigger] before[k] == self.records@[j];
                            assert(kept@[k] == self.records@[j]);
                        }
                    }
                    assert(kept@.drop_last() =~= before);
                    assert(kept@.last() == r);
                    assert forall|v: ObjectGuid, it: u32|
                        !(v == vendor && it == item_id) implies #[trigger] record_of(kept@, v, it)
                        == record_of(self.records@.take(i + 1), v, it) by {
                        assert(record_of(before, v, it) == record_of(self.records@.take(i as int), v, it));
                    }
                }
            } else {
                proof {
                    assert(r.vendor_guid == vendor);
                    assert forall|v: ObjectGuid, it: u32|
                        !(v == vendor && it == item_id) implies #[trigger] record_of(kept@, v, it)
                        == record_of(self.records@.take(i + 1), v, it) by {
                        assert(record_of(before, v, it) == record_of(self.records@.take(i as int), v, it));
                    }
                }
            }
            i = i + 1;
        }
        proof {
            assert(self.records@.take(i as int) =~= self.records@);
        }
        self.records = kept;
    }

    /// Records `count` and `last_increment_time` for (vendor, item); other records stay.
    pub fn set(&mut self, vendor: ObjectGuid, item_id: u32, count: u32, last_increment_time: u64)
        ensures
            final(self).record(vendor, item_id) == Some((count, last_increment_time)),
            forall|v: ObjectGuid, i: u32|
                !(v == vendor && i == item_id) ==> #[trigger] final(self).record(v, i) == old(
                    self,
                ).record(v, i),
    {
        self.remove(vendor, item_id);
        let ghost mid = *self;
        let ghost before = self.records@;
        proof {
            use_type_invariant(&*self);
            lemma_record_none_absent(before, vendor, item_id);
        }
        let mut records: Vec<VendorItemCount> = Vec::new();
        std::mem::swap(&mut records, &mut self.records);
        records.push(VendorItemCount { vendor_guid: vendor, item_id, count, last_increment_time });
        self.records = records;
        proof {
            assert(self.records@.drop_last() =~= before);
            assert forall|v: ObjectGuid, i: u32|
                !(v == vendor && i == item_id) implies #[trigger] record_of(self.records@, v, i)
                == old(self).record(v, i) by {
                assert(mid.record(v, i) == old(self).record(v, i));
            }
        }
    }

    /// The stock of (vendor, item) at time `now`, restocking it first: a full
    /// restock forgets the record; otherwise the restocked count is kept, with the
    /// restock time moved to `now` once a whole interval has passed.
    pub fn vendor_item_current_count_at(
        &mut self,
        vendor_guid: ObjectGuid,
        item_id: u32,
        max_count: u32,
        incr_time: u32,
        buy_count: u32,
        now: u64,
    ) -> (r: u32)
        ensures
            r == current_count_at(
                old(self).record(vendor_guid, item_id),
                now,
                max_count,
                incr_time,
                buy_count,
            ),
            forall|v: ObjectGuid, i: u32|
                !(v == vendor_guid && i == item_id) ==> #[trigger] final(self).record(v, i) == old(
                    self,
                ).record(v, i),
            max_count == 0 ==> r == 0 && final(self).record(vendor_guid, item_id) == old(
                self,
            ).record(vendor_guid, item_id),
            max_count != 0 ==> match old(self).record(vendor_guid, item_id) {
                None => r == max_count && final(self).record(vendor_guid, item_id) is None,
                Some((count, last)) => {
                    let elapsed = if now >= last {
                        (now - last) as u64
                    } else {
                        0u64
                    };
                    let refill = refill_of(count, elapsed, incr_time, buy_count, max_count);
                    if refill.1 {
                        r == max_count && final(self).record(vendor_guid, item_id) is None
                    } else {
                        r == refill.0 && final(self).record(vendor_guid, item_id) == Some(
                            (
                                refill.0,
                                if incr_time > 0 && elapsed >= incr_time {
                                    now
                                } else {
                                    last
                                },
                            ),
                        )
                    }
                },
            },
    {
        if max_count == 0 {
            return 0;
        }
        let (count, last) = match self.get(vendor_guid, item_id) {
            Some(rec) => rec,
            None => return max_count,
        };
        let elapsed = now.saturating_sub(last);
        let (new_count, full) = vendor_buy_stock_refill_count(
            count,
            elapsed,
            incr_time,
            buy_count,
            max_count,
        );
        if full {
            self.remove(vendor_guid, item_id);
            max_count
        } else {
            let last_time = if incr_time > 0 && elapsed >= incr_time as u64 {
                now
            } else {
                last
            };
            self.set(vendor_guid, item_id, new_count, last_time);
            new_count
        }
    }

    /// The stock of (vendor, item) now, restocked by the time that has passed.
    pub fn vendor_item_current_count(
        &mut self,
        vendor_guid: ObjectGuid,
        item_id: u32,
        max_count: u32,
        incr_time: u32,
        buy_count: u32,
    ) -> (r: u32)
        ensures
            forall|v: ObjectGuid, i: u32|
                !(v == vendor_guid && i == item_id) ==> #[trigger] final(self).record(v, i) == old(
                    self,
                ).record(v, i),
            max_count == 0 ==> r == 0 && final(self).record(vendor_guid, item_id) == old(
                self,
            ).record(vendor_guid, item_id),
            max_count != 0 ==> r <= max_count,
            max_count != 0 ==> (final(self).record(vendor_guid, item_id) is None && r == max_count)
                || (final(self).record(vendor_guid, item_id) matches Some((c, _)) && c == r),
            max_count != 0 && old(self).record(vendor_guid, item_id) is None ==> r == max_count
                && final(self).record(vendor_guid, item_id) is None,
    {
        let now = vendor_stock_now_secs();
        self.vendor_item_current_count_at(vendor_guid, item_id, max_count, incr_time, buy_count, now)
    }

    /// Takes `used_count` items from the stock of (vendor, item): the stock is
    /// first restocked at `now_refill`, then the reduced count is recorded with
    /// restock time `now_write`.
    pub fn update_vendor_item_current_count_at(
        &mut self,
        vendor_guid: ObjectGuid,
        item_id: u32,
        max_count: u32,
        incr_time: u32,
        buy_count: u32,
        used_count: u32,
        now_refill: u64,
        now_write: u64,
    ) -> (r: u32)
        ensures
            forall|v: ObjectGuid, i: u32|
                !(v == vendor_guid && i == item_id) ==> #[trigger] final(self).record(v, i) == old(
                    self,
                ).record(v, i),
            max_count == 0 ==> r == 0 && final(self).record(vendor_guid, item_id) == old(
                self,
            ).record(vendor_guid, item_id),
            max_count != 0 ==> r == sat_sub(
                current_count_at(
                    old(self).record(vendor_guid, item_id),
                    now_refill,
                    max_count,
                    incr_time,
                    buy_count,
                ),
                used_count,
            ),
            max_count != 0 ==> final(self).record(vendor_guid, item_id) == Some((r, now_write)),
            max_count != 0 ==> r <= max_count,
    {
        if max_count == 0 {
            return 0;
        }
        let current = self.vendor_item_current_count_at(
            vendor_guid,
            item_id,
            max_count,
            incr_time,
            buy_count,
            now_refill,
        );
        let new_count = current.saturating_sub(used_count);
        self.set(vendor_guid, item_id, new_count, now_write);
        new_count
    }

    /// Takes `used_count` items from the stock of (vendor, item) now: the stock
    /// restocked at a clock reading, less `used_count` (stopping at zero), is
    /// recorded with a later clock reading as its restock time.
    pub fn update_vendor_item_current_count(
        &mut self,
        vendor_guid: ObjectGuid,
        item_id: u32,
        max_count: u32,
        incr_time: u32,
        buy_count: u32,
        used_count: u32,
    ) -> (r: u32)
        ensures
            forall|v: ObjectGuid, i: u32|
                !(v == vendor_guid && i == item_id) ==> #[trigger] final(self).record(v, i) == old(
                    self,
                ).record(v, i),
            max_count == 0 ==> r == 0 && final(self).record(vendor_guid, item_id) == old(
                self,
            ).record(vendor_guid, item_id),
            max_count != 0 ==> r <= max_count,
            max_count != 0 ==> exists|now_refill: u64|
                r == sat_sub(
                    #[trigger] current_count_at(
                        old(self).record(vendor_guid, item_id),
                        now_refill,
                        max_count,
                        incr_time,
                        buy_count,
                    ),
                    used_count,
                ),
            max_count != 0 ==> (final(self).record(vendor_guid, item_id) matches Some((c, _)) && c
                == r),
    {
        if max_count == 0 {
            return 0;
        }
        let now_refill = vendor_stock_now_secs();
        let now_write = vendor_stock_now_secs();
        let r = self.update_vendor_item_current_count_at(
            vendor_guid,
            item_id,
            max_count,
            incr_time,
            buy_count,
            used_count,
            now_refill,
            now_write,
        );
        r
    }
}

/// Reading the stock right after a purchase, at the same time, gives back the
/// count the purchase left.
pub proof fn lemma_read_after_purchase(count: u32, now: u64, incr_time: u32, buy_count: u32, max_count: u32)
    requires
        max_count != 0,
        count <= max_count,
    ensures
        ({
            let refill = refill_of(count, 0, incr_time, buy_count, max_count);
            (if refill.1 {
                max_count
            } else {
                refill.0
            }) == count
        }),
{
}

} // verus!
