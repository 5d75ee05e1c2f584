//! The key-value store: a mapping from keys to values with optional
//! per-entry expiry. Keys and values are byte sequences, as the wire
//! carries them: any payload a bulk string can hold can be stored.
//!
//! Time enters every operation as a millisecond timestamp supplied by the
//! caller; an entry whose age exceeds its expiry reads as absent but stays
//! in place until overwritten (lazy expiration, no sweeper).

use vstd::prelude::*;
use vstd::slice::slice_to_vec;

use crate::util::bytes_eq;

verus! {

/// One stored value: the payload, an optional time-to-live in milliseconds,
/// and the timestamp of the `set` that wrote it.
pub struct StoreValue {
    pub value: Vec<u8>,
    pub expiry_time: Option<u64>,
    pub created_at: u64,
}

impl StoreValue {
    /// The entry reads as present at `now`: either it never expires, or its
    /// age has not passed its time-to-live.
    pub open spec fn live_at(self, now: u64) -> bool {
        match self.expiry_time {
            Some(e) => now - self.created_at <= e,
            None => true,
        }
    }

    /// A fresh entry created at `created_at`.
    pub fn new(value: Vec<u8>, expiry_time: Option<u64>, created_at: u64) -> (r: StoreValue)
        ensures
            r.value == value,
            r.expiry_time == expiry_time,
            r.created_at == created_at,
    {
        StoreValue { value, expiry_time, created_at }
    }

    /// The payload if the entry is live at `now`, absence otherwise.
    pub fn value(&self, now: u64) -> (r: Option<&Vec<u8>>)
        ensures
            match r {
                Some(v) => self.live_at(now) && v == &self.value,
                None => !self.live_at(now),
            },
    {
        if let Some(e) = self.expiry_time {
            if now > self.created_at && now - self.created_at > e {
                return None;
            }
        }
        Some(&self.value)
    }
}

/// The value stored under `key`, reading entries front to back.
pub open spec fn find_entry(entries: Seq<(Vec<u8>, StoreValue)>, key: Seq<u8>) -> Option<
    StoreValue,
>
    decreases entries.len(),
{
    if entries.len() == 0 {
        None
    } else if entries[0].0@ == key {
        Some(entries[0].1)
    } else {
        find_entry(entries.drop_first(), key)
    }
}

/// A match at `i` with no earlier match is what the lookup returns.
proof fn lemma_find_entry_at(entries: Seq<(Vec<u8>, StoreValue)>, key: Seq<u8>, i: int)
    requires
        0 <= i < entries.len(),
        entries[i].0@ == key,
        forall|j: int| 0 <= j < i ==> #[trigger] entries[j].0@ != key,
    ensures
        find_entry(entries, key) == Some(entries[i].1),
    decreases i,
{
    if i > 0 {
        lemma_find_entry_at(entries.drop_first(), key, i - 1);
        assert(forall|j: int|
            0 <= j < i - 1 ==> #[trigger] entries.drop_first()[j].0@ == entries[j + 1].0@);
    }
}

/// No key match anywhere: the lookup fails.
proof fn lemma_find_entry_none(entries: Seq<(Vec<u8>, StoreValue)>, key: Seq<u8>)
    requires
        forall|j: int| 0 <= j < entries.len() ==> #[trigger] entries[j].0@ != key,
    ensures
        find_entry(entries, key) is None,
    decreases entries.len(),
{
    if entries.len() > 0 {
        lemma_find_entry_none(entries.drop_first(), key);
    }
}

/// Replacing the entry at `i` in place changes the lookup only at its key.
proof fn lemma_find_entry_update(
    entries: Seq<(Vec<u8>, StoreValue)>,
    i: int,
    pair: (Vec<u8>, StoreValue),
    k: Seq<u8>,
)
    requires
        0 <= i < entries.len(),
        entries[i].0@ == pair.0@,
        k != pair.0@,
    ensures
        find_entry(entries.update(i, pair), k) == find_entry(entries, k),
    decreases i,
{
    let updated = entries.update(i, pair);
    if i == 0 {
        assert(updated.drop_first() =~= entries.drop_first());
    } else {
        assert(updated[0] == entries[0]);
        assert(updated.drop_first() =~= entries.drop_first().update(i - 1, pair));
        lemma_find_entry_update(entries.drop_first(), i - 1, pair, k);
    }
}

/// Appending an entry changes the lookup only at its key, where it answers
/// the new value provided the key was absent before.
proof fn lemma_find_entry_push(
    entries: Seq<(Vec<u8>, StoreValue)>,
    pair: (Vec<u8>, StoreValue),
    k: Seq<u8>,
)
    ensures
        k != pair.0@ ==> find_entry(entries.push(pair), k) == find_entry(entries, k),
        (k == pair.0@ && find_entry(entries, k) is None) ==> find_entry(entries.push(pair), k)
            == Some(pair.1),
    decreases entries.len(),
{
    let pushed = entries.push(pair);
    if entries.len() == 0 {
        assert(pushed[0] == pair);
        assert(pushed.drop_first() =~= Seq::<(Vec<u8>, StoreValue)>::empty());
        assert(find_entry(Seq::<(Vec<u8>, StoreValue)>::empty(), k) is None);
        assert(find_entry(entries, k) is None);
        if k != pair.0@ {
            assert(find_entry(pushed, k) == find_entry(pushed.drop_first(), k));
        } else {
            assert(find_entry(pushed, k) == Some(pair.1));
        }
    } else {
        assert(pushed[0] == entries[0]);
        assert(pushed.drop_first() =~= entries.drop_first().push(pair));
        lemma_find_entry_push(entries.drop_first(), pair, k);
        assert(find_entry(pushed, k) == if pushed[0].0@ == k {
            Some(pushed[0].1)
        } else {
            find_entry(pushed.drop_first(), k)
        });
        assert(find_entry(entries, k) == if entries[0].0@ == k {
            Some(entries[0].1)
        } else {
            find_entry(entries.drop_first(), k)
        });
    }
}

/// The store itself: an association list whose keys are pairwise distinct.
pub struct Store {
    pub data: Vec<(Vec<u8>, StoreValue)>,
}

impl Store {
    /// No key occurs twice.
    pub open spec fn wf(self) -> bool {
        forall|i: int, j: int|
            0 <= i < j < self.data@.len() ==> (#[trigger] self.data@[i]).0@ != (
            #[trigger] self.data@[j]).0@
    }

    /// The entry stored under `key`, live or not.
    pub open spec fn spec_entry(self, key: Seq<u8>) -> Option<StoreValue> {
        find_entry(self.data@, key)
    }

    /// The value a reader sees under `key` at `now`.
    pub open spec fn spec_get(self, key: Seq<u8>, now: u64) -> Option<Seq<u8>> {
        match find_entry(self.data@, key) {
            Some(sv) => if sv.live_at(now) {
                Some(sv.value@)
            } else {
                None
            },
            None => None,
        }
    }

    /// An empty store.
    pub fn init() -> (r: Store)
        ensures
            r.wf(),
            r.data@.len() == 0,
    {
        Store { data: Vec::new() }
    }

    /// The index of `key` in the backing vector, if present.
    fn find_index(&self, key: &[u8]) -> (r: Option<usize>)
        ensures
            match r {
                Some(i) => i < self.data@.len() && self.data@[i as int].0@ == key@
                    && find_entry(self.data@, key@) == Some(self.data@[i as int].1),
                None => find_entry(self.data@, key@) is None,
            },
    {
        let mut i: usize = 0;
        while i < self.data.len()
            invariant
                i <= self.data@.len(),
                forall|j: int| 0 <= j < i ==> #[trigger] self.data@[j].0@ != key@,
            decreases self.data@.len() - i,
        {
            if bytes_eq(self.data[i].0.as_slice(), key) {
                proof {
                    lemma_find_entry_at(self.data@, key@, i as int);
                }
                return Some(i);
            }
            i = i + 1;
        }
        proof {
            lemma_find_entry_none(self.data@, key@);
        }
        None
    }

    /// The live value under `key` at `now`, if any. An expired entry reads
    /// as absent but is not removed.
    pub fn get(&self, key: &[u8], now: u64) -> (r: Option<&Vec<u8>>)
        ensures
            match r {
                Some(v) => self.spec_get(key@, now) == Some(v@),
                None => self.spec_get(key@, now) is None,
            },
    {
        match self.find_index(key) {
            Some(i) => self.data[i].1.value(now),
            None => None,
        }
    }

    /// Stores `value` under `key` with a fresh creation time and the given
    /// expiry — an earlier expiry never carries over. Answers the value a
    /// reader would have seen just before, if any.
    pub fn set(&mut self, key: Vec<u8>, value: Vec<u8>, expiry_time: Option<u64>, now: u64) -> (r:
        Option<Vec<u8>>)
        requires
            old(self).wf(),
        ensures
            final (self).wf(),
            final (self).spec_entry(key@) == Some(
                StoreValue { value, expiry_time, created_at: now },
            ),
            forall|k: Seq<u8>|
                k != key@ ==> #[trigger] final (self).spec_entry(k) == old(self).spec_entry(k),
            match r {
                Some(v) => old(self).spec_get(key@, now) == Some(v@),
                None => old(self).spec_get(key@, now) is None,
            },
    {
        let entry = StoreValue::new(value, expiry_time, now);
        match self.find_index(key.as_slice()) {
            Some(i) => {
                let previous = match self.data[i].1.value(now) {
                    Some(v) => Some(slice_to_vec(v.as_slice())),
                    None => None,
                };
                let ghost before = self.data@;
                let pair = (key, entry);
                self.data[i] = pair;
                proof {
                    assert(self.data@ =~= before.update(i as int, pair));
                    lemma_find_entry_at(self.data@, pair.0@, i as int);
                    assert forall|k: Seq<u8>| k != pair.0@ implies #[trigger] find_entry(
                        self.data@,
                        k,
                    ) == find_entry(before, k) by {
                        lemma_find_entry_update(before, i as int, pair, k);
                    }
                }
                previous
            },
            None => {
                let ghost before = self.data@;
                let pair = (key, entry);
                self.data.push(pair);
                proof {
                    assert(self.data@ =~= before.push(pair));
                    assert forall|k: Seq<u8>| true implies (k != pair.0@ ==> #[trigger] find_entry(
                        self.data@,
                        k,
                    ) == find_entry(before, k)) && (k == pair.0@ ==> find_entry(self.data@, k)
                        == Some(pair.1)) by {
                        lemma_find_entry_push(before, pair, k);
                    }
                    assert forall|i: int, j: int|
                        0 <= i < j < self.data@.len() implies (#[trigger] self.data@[i]).0@ != (
                    #[trigger] self.data@[j]).0@ by {
                        if j == self.data@.len() - 1 {
                            if self.data@[i].0@ == pair.0@ {
                                lemma_find_entry_at(before, pair.0@, i);
                            }
                        }
                    }
                }
                None
            },
        }
    }

    /// Whether a live value sits under `key` at `now` — the same liveness
    /// rule as `get`.
    pub fn has(&self, key: &[u8], now: u64) -> (r: bool)
        ensures
            r == (self.spec_get(key@, now) is Some),
    {
        match self.get(key, now) {
            Some(_) => true,
            None => false,
        }
    }
}

} // verus!
