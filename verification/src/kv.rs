//! Model of the backing key-value store.
//!
//! The store holds string values under string keys; a write may carry an
//! expiry instant, after which a read no longer sees the record. Later
//! writes shadow earlier ones, so the store behaves as a map whose reads
//! are filtered by the clock. It offers exactly the three primitives the
//! service needs: atomic insert-if-absent, get, and set-with-expiry.
//!
//! Time is explicit: every reading operation takes the current instant, so
//! expiry is part of the model rather than of a wall clock.

use vstd::prelude::*;

verus! {

/// One record: a value under a key, gone once `expires_at` is reached
/// (when there is one).
pub struct Entry {
    pub key: String,
    pub value: String,
    pub expires_at: Option<u64>,
}

/// The ghost image of one record.
pub ghost struct EntryV {
    pub key: Seq<char>,
    pub value: Seq<char>,
    pub expires_at: Option<u64>,
}

impl View for Entry {
    type V = EntryV;

    open spec fn view(&self) -> EntryV {
        EntryV { key: self.key@, value: self.value@, expires_at: self.expires_at }
    }
}

/// The latest record written under `key`, live or not.
pub open spec fn find(s: Seq<EntryV>, key: Seq<char>) -> Option<EntryV>
    decreases s.len(),
{
    if s.len() == 0 { None }
    else if s.last().key == key { Some(s.last()) }
    else { find(s.drop_last(), key) }
}

/// Whether a record is still visible at instant `now`.
pub open spec fn is_live(e: EntryV, now: u64) -> bool {
    match e.expires_at {
        None => true,
        Some(d) => now < d,
    }
}

/// The value a read of `key` sees at instant `now`: the latest record's
/// value, unless that record has expired or none was ever written.
pub open spec fn live_value(s: Seq<EntryV>, key: Seq<char>, now: u64) -> Option<Seq<char>> {
    match find(s, key) {
        Some(e) => if is_live(e, now) { Some(e.value) } else { None },
        None => None,
    }
}

/// Appending a record makes it the latest under its key and leaves every
/// other key's latest record as it was.
pub proof fn lemma_find_push(s: Seq<EntryV>, e: EntryV, key: Seq<char>)
    ensures
        find(s.push(e), key) == (if e.key == key { Some(e) } else { find(s, key) }),
{
    assert(s.push(e).last() == e);
    assert(s.push(e).drop_last() =~= s);
}

/// The store: a journal of writes, reads resolving to the latest one.
pub struct KvStore {
    entries: Vec<Entry>,
}

impl View for KvStore {
    type V = Seq<EntryV>;

    closed spec fn view(&self) -> Seq<EntryV> {
        self.entries@.map_values(|e: Entry| e@)
    }
}

impl KvStore {
    /// An empty store.
    pub fn new() -> (r: KvStore)
        ensures
            r@ == Seq::<EntryV>::empty(),
    {
        let r = KvStore { entries: Vec::new() };
        assert(r@ =~= Seq::<EntryV>::empty());
        r
    }

    /// The index of the latest record under `key`, if any was written.
    fn find_latest(&self, key: &String) -> (r: Option<usize>)
        ensures
            match r {
                Some(idx) => idx < self@.len() && find(self@, key@) == Some(self@[idx as int]),
                None => find(self@, key@) is None,
            },
    {
        let n = self.entries.len();
        let mut i: usize = n;
        assert(self@.take(n as int) =~= self@);
        while i > 0
            invariant
                i <= n,
                n == self@.len(),
                n == self.entries@.len(),
                find(self@, key@) == find(self@.take(i as int), key@),
        decreases i,
    {
            i -= 1;
            assert(self@[i as int] == self.entries@[i as int]@);
            assert(self@.take(i as int + 1).last() == self@[i as int]);
            if self.entries[i].key == *key {
                return Some(i);
            }
            assert(self@.take(i as int + 1).drop_last() =~= self@.take(i as int));
        }
        assert(self@.take(0) =~= Seq::<EntryV>::empty());
        None
    }

    /// A read of `key` at instant `now`: the latest value if it is still
    /// live, nothing if it expired or was never written.
    pub fn get(&self, key: &String, now: u64) -> (r: Option<String>)
        ensures
            match r {
                Some(v) => live_value(self@, key@, now) == Some(v@),
                None => live_value(self@, key@, now) is None,
            },
    {
        match self.find_latest(key) {
            None => None,
            Some(i) => {
                assert(self@[i as int] == self.entries@[i as int]@);
                let live = match self.entries[i].expires_at {
                    None => true,
                    Some(d) => now < d,
                };
                if live {
                    Some(self.entries[i].value.clone())
                } else {
                    None
                }
            },
        }
    }

    /// Atomic insert-if-absent: writes `value` under `key` without expiry
    /// and reports true exactly when no live record was there at `now`;
    /// otherwise the store is untouched and it reports false.
    pub fn insert_if_absent(&mut self, key: &String, value: &String, now: u64) -> (r: bool)
        ensures
            r == (live_value(old(self)@, key@, now) is None),
            r ==> final(self)@ == old(self)@.push(
                EntryV { key: key@, value: value@, expires_at: None },
            ),
            !r ==> final(self)@ == old(self)@,
    {
        let existing = self.get(key, now);
        match existing {
            Some(_) => false,
            None => {
                self.entries.push(
                    Entry { key: key.clone(), value: value.clone(), expires_at: None },
                );
                assert(self@ =~= old(self)@.push(
                    EntryV { key: key@, value: value@, expires_at: None },
                ));
                true
            },
        }
    }

    /// Writes `value` under `key` with an expiry instant, replacing
    /// whatever record was there.
    pub fn set_with_expiry(&mut self, key: &String, value: &String, expires_at: u64)
        ensures
            final(self)@ == old(self)@.push(
                EntryV { key: key@, value: value@, expires_at: Some(expires_at) },
            ),
    {
        self.entries.push(
            Entry { key: key.clone(), value: value.clone(), expires_at: Some(expires_at) },
        );
        assert(self@ =~= old(self)@.push(
            EntryV { key: key@, value: value@, expires_at: Some(expires_at) },
        ));
    }
}

} // verus!
