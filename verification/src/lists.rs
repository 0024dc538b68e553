//! The in-memory reference list cache: one entry per list key, stamped
//! with the time of capture and served only inside a fixed freshness
//! window.

use vstd::prelude::*;

use crate::models::{Campus, College, Group};

verus! {

/// Seconds a captured reference list stays fresh.
pub const LIST_FRESHNESS_SECONDS: u64 = 300;

/// Which reference list an entry caches.
#[derive(Debug, Clone, Copy, PartialEq, Eq, Structural)]
pub enum ListKey {
    /// The list of colleges.
    Colleges,
    /// The campuses of one college.
    Campuses(u32),
    /// The groups of one campus.
    Groups(u32),
}

/// A captured reference list.
#[derive(Debug)]
pub enum ListData {
    Colleges(Vec<College>),
    Campuses(Vec<Campus>),
    Groups(Vec<Group>),
}

/// The mathematical content of a captured list.
pub ghost enum ListDataView {
    Colleges(Seq<College>),
    Campuses(Seq<Campus>),
    Groups(Seq<Group>),
}

impl View for ListData {
    type V = ListDataView;

    open spec fn view(&self) -> ListDataView {
        match self {
            ListData::Colleges(v) => ListDataView::Colleges(v@),
            ListData::Campuses(v) => ListDataView::Campuses(v@),
            ListData::Groups(v) => ListDataView::Groups(v@),
        }
    }
}

impl Clone for ListData {
    fn clone(&self) -> (res: Self)
        ensures
            res@ == self@,
    {
        match self {
            ListData::Colleges(v) => {
                let c = v.clone();
                proof {
                    assert(c@ =~= v@);
                }
                ListData::Colleges(c)
            },
            ListData::Campuses(v) => {
                let c = v.clone();
                proof {
                    assert(c@ =~= v@);
                }
                ListData::Campuses(c)
            },
            ListData::Groups(v) => {
                let c = v.clone();
                proof {
                    assert(c@ =~= v@);
                }
                ListData::Groups(c)
            },
        }
    }
}

/// One cached list with its capture time.
pub struct ListEntry {
    pub key: ListKey,
    pub data: ListData,
    pub stored: u64,
}

/// The first entry of `s` under `k`, if any: its content and capture
/// time.
pub open spec fn seq_list_entry(s: Seq<ListEntry>, k: ListKey) -> Option<(ListDataView, u64)>
    decreases s.len(),
{
    if s.len() == 0 {
        None
    } else if s[0].key == k {
        Some((s[0].data@, s[0].stored))
    } else {
        seq_list_entry(s.drop_first(), k)
    }
}

/// Looking a key up in concatenated stores reads the left store first.
proof fn lemma_seq_list_entry_concat(a: Seq<ListEntry>, b: Seq<ListEntry>, k: ListKey)
    ensures
        seq_list_entry(a + b, k) == if seq_list_entry(a, k) is Some {
            seq_list_entry(a, k)
        } else {
            seq_list_entry(b, k)
        },
    decreases a.len(),
{
    if a.len() == 0 {
        assert(a + b =~= b);
    } else {
        assert((a + b).drop_first() =~= a.drop_first() + b);
        assert((a + b)[0] == a[0]);
        lemma_seq_list_entry_concat(a.drop_first(), b, k);
    }
}

/// Looking a key up in a one-entry store.
proof fn lemma_seq_list_entry_singleton(e: ListEntry, k: ListKey)
    ensures
        seq_list_entry(seq![e], k) == if e.key == k {
            Some((e.data@, e.stored))
        } else {
            None::<(ListDataView, u64)>
        },
{
    assert(seq![e].drop_first() =~= Seq::<ListEntry>::empty());
    assert(seq_list_entry(Seq::<ListEntry>::empty(), k) is None);
    assert(seq![e][0] == e);
}

/// The in-memory reference list cache.
pub struct ListsCache {
    entries: Vec<ListEntry>,
}

/// True when an entry captured at `stored` is still fresh at `now`.
pub open spec fn spec_fresh(stored: u64, now: u64) -> bool {
    (now as int) < (stored as int) + (LIST_FRESHNESS_SECONDS as int)
}

impl ListsCache {
    /// The entry stored under `k`.
    pub closed spec fn spec_entry(self, k: ListKey) -> Option<(ListDataView, u64)> {
        seq_list_entry(self.entries@, k)
    }

    /// What a lookup at `now` returns: the stored content, only while
    /// fresh.
    pub open spec fn spec_lookup(self, k: ListKey, now: u64) -> Option<ListDataView> {
        match self.spec_entry(k) {
            Some((dv, stored)) => if spec_fresh(stored, now) {
                Some(dv)
            } else {
                None
            },
            None => None,
        }
    }

    /// An empty cache.
    pub fn new() -> (r: ListsCache)
        ensures
            forall|k: ListKey| #[trigger] r.spec_entry(k) is None,
    {
        ListsCache { entries: Vec::new() }
    }

    /// Returns the list stored under `key` if it was captured less than
    /// the freshness window ago; a stale entry is left in place and
    /// ignored.
    pub fn lookup(&self, key: &ListKey, now: u64) -> (r: Option<ListData>)
        ensures
            match self.spec_lookup(*key, now) {
                Some(dv) => r matches Some(d) && d@ == dv,
                None => r is None,
            },
    {
        let n = self.entries.len();
        let ghost s = self.entries@;
        let mut i: usize = 0;
        while i < n
            invariant
                n == s.len(),
                s == self.entries@,
                i <= n,
                seq_list_entry(s.subrange(0, i as int), *key) is None,
            decreases n - i,
        {
            let e = &self.entries[i];
            let key_hit = match (&e.key, key) {
                (ListKey::Colleges, ListKey::Colleges) => true,
                (ListKey::Campuses(a), ListKey::Campuses(b)) => *a == *b,
                (ListKey::Groups(a), ListKey::Groups(b)) => *a == *b,
                _ => false,
            };
            proof {
                let pre = s.subrange(0, i as int);
                let pre1 = s.subrange(0, i + 1);
                assert(pre1 =~= pre + seq![s[i as int]]);
                lemma_seq_list_entry_concat(pre, seq![s[i as int]], *key);
                lemma_seq_list_entry_singleton(s[i as int], *key);
                assert(s =~= pre1 + s.subrange(i + 1, n as int));
                lemma_seq_list_entry_concat(pre1, s.subrange(i + 1, n as int), *key);
            }
            if key_hit {
                let fresh = now < e.stored || now - e.stored < LIST_FRESHNESS_SECONDS;
                if fresh {
                    return Some(e.data.clone());
                } else {
                    return None;
                }
            }
            i = i + 1;
        }
        proof {
            assert(s.subrange(0, n as int) =~= s);
        }
        None
    }

    /// Stores `data` under `key` with capture time `now`, overwriting
    /// any previous entry.
    pub fn store(&mut self, key: &ListKey, data: ListData, now: u64)
        ensures
            forall|k2: ListKey| #[trigger]
                final(self).spec_entry(k2) == if k2 == *key {
                    Some((data@, now))
                } else {
                    old(self).spec_entry(k2)
                },
    {
        let ghost orig = self.entries@;
        let mut work: Vec<ListEntry> = Vec::new();
        core::mem::swap(&mut self.entries, &mut work);
        while work.len() > 0
            invariant
                orig.len() >= work@.len(),
                work@ == orig.subrange(orig.len() - work@.len(), orig.len() as int),
                forall|k2: ListKey| #[trigger]
                    seq_list_entry(self.entries@, k2) == if k2 == *key {
                        None::<(ListDataView, u64)>
                    } else {
                        seq_list_entry(orig.subrange(0, orig.len() - work@.len()), k2)
                    },
            decreases work@.len(),
        {
            let ghost k = orig.len() - work@.len();
            let e = work.remove(0);
            proof {
                assert(work@ =~= orig.subrange(k + 1, orig.len() as int));
                assert(e == orig[k]);
            }
            let keep = match (&e.key, key) {
                (ListKey::Colleges, ListKey::Colleges) => false,
                (ListKey::Campuses(a), ListKey::Campuses(b)) => *a != *b,
                (ListKey::Groups(a), ListKey::Groups(b)) => *a != *b,
                _ => true,
            };
            let ghost kept_before = self.entries@;
            if keep {
                self.entries.push(e);
            }
            proof {
                let prefix = orig.subrange(0, k);
                let prefix1 = orig.subrange(0, k + 1);
                assert(prefix1 =~= prefix + seq![e]);
                assert forall|k2: ListKey| #[trigger]
                    seq_list_entry(self.entries@, k2) == if k2 == *key {
                        None::<(ListDataView, u64)>
                    } else {
                        seq_list_entry(prefix1, k2)
                    } by {
                    lemma_seq_list_entry_concat(prefix, seq![e], k2);
                    lemma_seq_list_entry_singleton(e, k2);
                    if keep {
                        assert(self.entries@ =~= kept_before + seq![e]);
                        lemma_seq_list_entry_concat(kept_before, seq![e], k2);
                        assert(e.key != *key);
                    } else {
                        assert(e.key == *key);
                    }
                }
            }
        }
        proof {
            assert(orig.subrange(0, orig.len() as int) =~= orig);
        }
        let ghost cleared = self.entries@;
        let entry = ListEntry { key: *key, data, stored: now };
        let ghost dv = entry.data@;
        self.entries.push(entry);
        proof {
            assert forall|k2: ListKey| #[trigger]
                seq_list_entry(self.entries@, k2) == if k2 == *key {
                    Some((dv, now))
                } else {
                    seq_list_entry(orig, k2)
                } by {
                assert(self.entries@ =~= cleared + seq![entry]);
                lemma_seq_list_entry_concat(cleared, seq![entry], k2);
                lemma_seq_list_entry_singleton(entry, k2);
            }
        }
    }

    /// Serves `key` from the cache while its capture is inside the
    /// freshness window; otherwise invokes `fetch` once, stores what it
    /// produced with the current time, and returns it. A failed fetch
    /// is handed through and nothing is stored.
    pub fn get_or_fetch<E, F: FnOnce() -> Result<ListData, E>>(
        &mut self,
        key: &ListKey,
        now: u64,
        fetch: F,
    ) -> (r: Result<ListData, E>)
        requires
            fetch.requires(()),
        ensures
            match old(self).spec_lookup(*key, now) {
                Some(dv) => {
                    &&& r matches Ok(d) && d@ == dv
                    &&& *final(self) == *old(self)
                },
                None => match r {
                    Ok(d) => {
                        &&& call_ensures(fetch, (), Ok::<ListData, E>(d))
                        &&& forall|k2: ListKey| #[trigger]
                            final(self).spec_entry(k2) == if k2 == *key {
                                Some((d@, now))
                            } else {
                                old(self).spec_entry(k2)
                            }
                    },
                    Err(e) => {
                        &&& call_ensures(fetch, (), Err::<ListData, E>(e))
                        &&& *final(self) == *old(self)
                    },
                },
            },
    {
        match self.lookup(key, now) {
            Some(d) => Ok(d),
            None => match fetch() {
                Ok(d) => {
                    let copy = d.clone();
                    self.store(key, copy, now);
                    Ok(d)
                },
                Err(e) => Err(e),
            },
        }
    }

    /// Drops every entry, fresh or stale.
    pub fn clear(&mut self)
        ensures
            forall|k: ListKey| #[trigger] final(self).spec_entry(k) is None,
    {
        self.entries.clear();
    }
}

/// Within the freshness window a stored list is served from memory, so a
/// caller that looks up before fetching performs no second fetch; once
/// the window has elapsed the lookup misses and the caller fetches anew.
pub proof fn lemma_freshness_window(c: ListsCache, k: ListKey, dv: ListDataView, t: u64, t2: u64)
    requires
        c.spec_entry(k) == Some((dv, t)),
    ensures
        spec_fresh(t, t2) ==> c.spec_lookup(k, t2) == Some(dv),
        !spec_fresh(t, t2) ==> c.spec_lookup(k, t2) is None,
{
}

} // verus!
