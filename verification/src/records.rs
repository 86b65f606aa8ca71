//! Per-device sync state.
//!
//! The store maps each device's connection key to the watermark of its last
//! successful sync. It is loaded once per run from the persisted form — a
//! list of key / RFC 3339 date-time pairs — mutated at most once, and written
//! back in full. At most one record per connection key is maintained;
//! persisted data that cannot be understood, or that holds two records for
//! one key, is corrupt and fatal.

use vstd::prelude::*;

use crate::SyncError;
use crate::time::{format_rfc3339, parse_rfc3339, rfc3339_nanos, rfc3339_string};

verus! {

/// One device's sync state: its connection key and the watermark of its last
/// successful sync, in nanoseconds since the Unix epoch.
pub struct Record {
    pub connectkey: String,
    pub watermark: i64,
}

impl Clone for Record {
    fn clone(&self) -> (r: Self)
        ensures
            r == *self,
    {
        Record { connectkey: self.connectkey.clone(), watermark: self.watermark }
    }
}

/// The persisted per-device sync state of all devices.
pub struct RecordStore {
    pub records: Vec<Record>,
}

impl RecordStore {
    /// At most one record per connection key.
    pub open spec fn wf(self) -> bool {
        forall|i: int, j: int|
            0 <= i < j < self.records@.len() ==> self.records@[i].connectkey@
                != self.records@[j].connectkey@
    }

    /// Whether some record carries this connection key.
    pub open spec fn spec_contains(self, key: Seq<char>) -> bool {
        exists|i: int| 0 <= i < self.records@.len() && self.records@[i].connectkey@ == key
    }

    /// The watermark recorded for this connection key, if any.
    pub open spec fn spec_watermark(self, key: Seq<char>) -> Option<i64> {
        if self.spec_contains(key) {
            let i = choose|i: int|
                0 <= i < self.records@.len() && self.records@[i].connectkey@ == key;
            Some(self.records@[i].watermark)
        } else {
            None
        }
    }

    /// In a well-formed store the record at any index carrying `key`
    /// determines `spec_watermark(key)`.
    pub proof fn lemma_watermark_at(self, key: Seq<char>, i: int)
        requires
            self.wf(),
            0 <= i < self.records@.len(),
            self.records@[i].connectkey@ == key,
        ensures
            self.spec_contains(key),
            self.spec_watermark(key) == Some(self.records@[i].watermark),
    {
        assert(self.spec_contains(key));
        let j = choose|j: int|
            0 <= j < self.records@.len() && self.records@[j].connectkey@ == key;
        assert(i == j);
    }

    /// An empty store: no device has ever synced.
    pub fn new() -> (r: RecordStore)
        ensures
            r.wf(),
            r.records@.len() == 0,
    {
        RecordStore { records: Vec::new() }
    }

    /// Whether a record exists for this device.
    pub fn record_entry_exists(&self, connect_key: &String) -> (r: bool)
        ensures
            r == self.spec_contains(connect_key@),
    {
        let mut i: usize = 0;
        while i < self.records.len()
            invariant
                i <= self.records@.len(),
                forall|k: int| 0 <= k < i ==> self.records@[k].connectkey@ != connect_key@,
            decreases self.records@.len() - i,
        {
            if self.records[i].connectkey == *connect_key {
                return true;
            }
            i = i + 1;
        }
        false
    }

    /// The record for this device, or none.
    pub fn record_entry(&self, connect_key: &String) -> (r: Option<&Record>)
        requires
            self.wf(),
        ensures
            match r {
                Option::Some(rec) => self.spec_contains(connect_key@) && rec.connectkey@
                    == connect_key@ && self.spec_watermark(connect_key@) == Some(rec.watermark),
                Option::None => !self.spec_contains(connect_key@),
            },
    {
        let mut i: usize = 0;
        while i < self.records.len()
            invariant
                self.wf(),
                i <= self.records@.len(),
                forall|k: int| 0 <= k < i ==> self.records@[k].connectkey@ != connect_key@,
            decreases self.records@.len() - i,
        {
            if self.records[i].connectkey == *connect_key {
                proof {
                    self.lemma_watermark_at(connect_key@, i as int);
                }
                return Some(&self.records[i]);
            }
            i = i + 1;
        }
        None
    }

    /// The index of this device's record, for mutation through the store, or
    /// none. (A borrow of the entry cannot be handed out of a verified
    /// method, so the position stands in for it.)
    pub fn record_entry_mut(&mut self, connect_key: &String) -> (r: Option<usize>)
        ensures
            *final(self) == *old(self),
            match r {
                Option::Some(i) => i < old(self).records@.len() && old(self).records@[
                    i as int
                ].connectkey@ == connect_key@,
                Option::None => !old(self).spec_contains(connect_key@),
            },
    {
        let mut i: usize = 0;
        while i < self.records.len()
            invariant
                i <= self.records@.len(),
                forall|k: int| 0 <= k < i ==> self.records@[k].connectkey@ != connect_key@,
            decreases self.records@.len() - i,
        {
            if self.records[i].connectkey == *connect_key {
                return Some(i);
            }
            i = i + 1;
        }
        None
    }

    /// Set this device's watermark, appending a record when none exists.
    /// Every other device's state is untouched.
    pub fn upsert(&mut self, connect_key: &String, watermark: i64)
        requires
            old(self).wf(),
        ensures
            final(self).wf(),
            final(self).spec_contains(connect_key@),
            final(self).spec_watermark(connect_key@) == Some(watermark),
            forall|k: Seq<char>|
                k != connect_key@ ==> #[trigger] final(self).spec_watermark(k) == old(
                    self,
                ).spec_watermark(k),
            final(self).records@.len() == old(self).records@.len() + (if old(self).spec_contains(
                connect_key@,
            ) {
                0int
            } else {
                1int
            }),
            forall|i: int|
                0 <= i < old(self).records@.len() ==> (#[trigger] final(self).records@[
                    i
                ]).connectkey@ == old(self).records@[i].connectkey@ && (old(self).records@[
                    i
                ].connectkey@ != connect_key@ ==> final(self).records@[i] == old(self).records@[
                    i
                ]),
            !old(self).spec_contains(connect_key@) ==> final(self).records@.last().connectkey@
                == connect_key@ && final(self).records@.last().watermark == watermark,
    {
        let found = self.record_entry_mut(connect_key);
        match found {
            Option::Some(i) => {
                let key = connect_key.clone();
                self.records[i] = Record { connectkey: key, watermark };
                proof {
                    assert(self.records@ == old(self).records@.update(
                        i as int,
                        self.records@[i as int],
                    ));
                    self.lemma_watermark_at(connect_key@, i as int);
                    old(self).lemma_watermark_at(connect_key@, i as int);
                    assert forall|k: Seq<char>| k != connect_key@ implies #[trigger] self
                        .spec_watermark(k) == old(self).spec_watermark(k) by {
                        self.lemma_frame(*old(self), i as int, k);
                    }
                }
            },
            Option::None => {
                let key = connect_key.clone();
                self.records.push(Record { connectkey: key, watermark });
                proof {
                    let n = old(self).records@.len() as int;
                    assert(self.records@[n].connectkey@ == connect_key@);
                    self.lemma_watermark_at(connect_key@, n);
                    assert forall|k: Seq<char>| k != connect_key@ implies #[trigger] self
                        .spec_watermark(k) == old(self).spec_watermark(k) by {
                        self.lemma_frame_push(*old(self), k);
                    }
                }
            },
        }
    }

    /// Frame helper: replacing the record at `i` by one with the same key
    /// leaves every other key's state alone.
    proof fn lemma_frame(self, prev: RecordStore, i: int, k: Seq<char>)
        requires
            self.wf(),
            prev.wf(),
            0 <= i < prev.records@.len(),
            self.records@ == prev.records@.update(i, self.records@[i]),
            self.records@[i].connectkey@ == prev.records@[i].connectkey@,
            k != prev.records@[i].connectkey@,
        ensures
            self.spec_watermark(k) == prev.spec_watermark(k),
    {
        if prev.spec_contains(k) {
            let j = choose|j: int|
                0 <= j < prev.records@.len() && prev.records@[j].connectkey@ == k;
            assert(j != i);
            assert(self.records@[j] == prev.records@[j]);
            self.lemma_watermark_at(k, j);
            prev.lemma_watermark_at(k, j);
        } else {
            assert forall|j: int|
                0 <= j < self.records@.len() implies self.records@[j].connectkey@ != k by {
                if j != i {
                    assert(self.records@[j] == prev.records@[j]);
                }
            }
            assert(!self.spec_contains(k));
        }
    }

    /// Frame helper: appending a record for one key leaves every other key's
    /// state alone.
    proof fn lemma_frame_push(self, prev: RecordStore, k: Seq<char>)
        requires
            self.wf(),
            prev.wf(),
            self.records@.len() == prev.records@.len() + 1,
            self.records@ == prev.records@.push(self.records@[prev.records@.len() as int]),
            k != self.records@[prev.records@.len() as int].connectkey@,
        ensures
            self.spec_watermark(k) == prev.spec_watermark(k),
    {
        let n = prev.records@.len() as int;
        if prev.spec_contains(k) {
            let j = choose|j: int|
                0 <= j < prev.records@.len() && prev.records@[j].connectkey@ == k;
            assert(self.records@[j] == prev.records@[j]);
            self.lemma_watermark_at(k, j);
            prev.lemma_watermark_at(k, j);
        } else {
            assert forall|j: int|
                0 <= j < self.records@.len() implies self.records@[j].connectkey@ != k by {
                if j < n {
                    assert(self.records@[j] == prev.records@[j]);
                }
            }
            assert(!self.spec_contains(k));
        }
    }

    /// Whether a list of persisted key / date-time pairs is valid sync
    /// state: every date-time parses, and no key repeats.
    pub open spec fn spec_entries_ok(entries: Seq<(String, String)>) -> bool {
        &&& forall|i: int| 0 <= i < entries.len() ==> (#[trigger] rfc3339_nanos(
            entries[i].1@,
        )) is Some
        &&& forall|i: int, j: int| 0 <= i < j < entries.len() ==> entries[i].0@ != entries[j].0@
    }

    /// Build the store from the persisted key / RFC 3339 date-time pairs.
    /// Fails — with nothing rescued — exactly when the data is corrupt: a
    /// date-time that does not parse, or a key that repeats.
    pub fn from_entries(entries: &Vec<(String, String)>) -> (r: Result<RecordStore, SyncError>)
        ensures
            r is Ok <==> Self::spec_entries_ok(entries@),
            (r matches Ok(s) ==> {
                &&& s.wf()
                &&& s.records@.len() == entries@.len()
                &&& forall|i: int|
                    0 <= i < entries@.len() ==> (#[trigger] s.records@[i]).connectkey@
                        == entries@[i].0@ && Some(s.records@[i].watermark) == rfc3339_nanos(
                        entries@[i].1@,
                    )
            }),
            (r matches Err(e) ==> e == SyncError::CorruptRecord),
    {
        let mut store = RecordStore { records: Vec::new() };
        let mut i: usize = 0;
        while i < entries.len()
            invariant
                i <= entries@.len(),
                store.wf(),
                store.records@.len() == i,
                forall|k: int|
                    0 <= k < i ==> (#[trigger] store.records@[k]).connectkey@ == entries@[k].0@
                        && Some(store.records@[k].watermark) == rfc3339_nanos(entries@[k].1@),
            decreases entries@.len() - i,
        {
            let parsed = parse_rfc3339(entries[i].1.as_str());
            match parsed {
                Option::None => {
                    return Err(SyncError::CorruptRecord);
                },
                Option::Some(w) => {
                    if store.record_entry_exists(&entries[i].0) {
                        proof {
                            let k = choose|k: int|
                                0 <= k < store.records@.len() && store.records@[k].connectkey@
                                    == entries@[i as int].0@;
                            assert(entries@[k].0@ == entries@[i as int].0@);
                        }
                        return Err(SyncError::CorruptRecord);
                    }
                    let key = entries[i].0.clone();
                    store.records.push(Record { connectkey: key, watermark: w });
                },
            }
            i = i + 1;
        }
        proof {
            assert forall|a: int, b: int| 0 <= a < b < entries@.len() implies entries@[a].0@
                != entries@[b].0@ by {
                assert(store.records@[a].connectkey@ == entries@[a].0@);
                assert(store.records@[b].connectkey@ == entries@[b].0@);
            }
            assert forall|k: int| 0 <= k < entries@.len() implies (#[trigger] rfc3339_nanos(
                entries@[k].1@,
            )) is Some by {
                assert(Some(store.records@[k].watermark) == rfc3339_nanos(entries@[k].1@));
            }
        }
        Ok(store)
    }

    /// The persisted form of the store: one key / RFC 3339 date-time pair
    /// per record, in store order. Reading the result back yields the same
    /// state.
    pub fn to_entries(&self) -> (r: Vec<(String, String)>)
        ensures
            r@.len() == self.records@.len(),
            forall|i: int|
                0 <= i < r@.len() ==> (#[trigger] r@[i]).0@ == self.records@[i].connectkey@
                    && r@[i].1@ == rfc3339_string(self.records@[i].watermark) && rfc3339_nanos(
                    r@[i].1@,
                ) == Some(self.records@[i].watermark),
    {
        let mut r: Vec<(String, String)> = Vec::new();
        let mut i: usize = 0;
        while i < self.records.len()
            invariant
                i <= self.records@.len(),
                r@.len() == i,
                forall|k: int|
                    0 <= k < i ==> (#[trigger] r@[k]).0@ == self.records@[k].connectkey@
                        && r@[k].1@ == rfc3339_string(self.records@[k].watermark) && rfc3339_nanos(
                        r@[k].1@,
                    ) == Some(self.records@[k].watermark),
            decreases self.records@.len() - i,
        {
            let key = self.records[i].connectkey.clone();
            let date = format_rfc3339(self.records[i].watermark);
            r.push((key, date));
            i = i + 1;
        }
        r
    }
}

} // verus!
