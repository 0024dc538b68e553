//! The disk schedule cache: one entry per (group, date) key, aged by the
//! time it was written, expired and removed on read.
//!
//! The manager holds the store as plain values; the surrounding
//! application mirrors every change onto real cache files, deriving each
//! file's name through [`CacheManager::cache_file_name`].

use vstd::prelude::*;

use crate::error::CacheError;
use crate::models::{clone_schedules, scheds_view, Schedule, ScheduleView};
use crate::strutil::append_u32;
use crate::strutil::{
    is_digit_char, lemma_spec_dec_digits, lemma_spec_dec_injective, lemma_spec_dec_len, spec_dec,
};
use crate::utils::{lemma_iso_injective, AppDate};

verus! {

/// One stored entry: the schedules of one (group, date) key and the
/// time they were written. An entry whose backing file cannot be
/// decoded is kept in a corrupt state: present, aged like any other,
/// but unreadable.
pub struct CacheEntry {
    pub group: Option<u32>,
    pub date: AppDate,
    pub data: Vec<Schedule>,
    pub modified: u64,
    pub corrupt: bool,
}

/// The mathematical content of a cache entry.
pub ghost struct EntryView {
    pub data: Seq<ScheduleView>,
    pub modified: u64,
    pub corrupt: bool,
}

/// True when `e` is stored under the key `(g, d)`.
pub open spec fn key_matches(e: CacheEntry, g: Option<u32>, d: AppDate) -> bool {
    e.group == g && e.date == d
}

/// The content of one entry.
pub open spec fn entry_view(e: CacheEntry) -> EntryView {
    EntryView { data: scheds_view(e.data@), modified: e.modified, corrupt: e.corrupt }
}

/// The first entry of `s` stored under `(g, d)`, if any.
pub open spec fn seq_entry(s: Seq<CacheEntry>, g: Option<u32>, d: AppDate) -> Option<EntryView>
    decreases s.len(),
{
    if s.len() == 0 {
        None
    } else if key_matches(s[0], g, d) {
        Some(entry_view(s[0]))
    } else {
        seq_entry(s.drop_first(), g, d)
    }
}

/// Looking a key up in concatenated stores reads the left store first.
pub proof fn lemma_seq_entry_concat(
    a: Seq<CacheEntry>,
    b: Seq<CacheEntry>,
    g: Option<u32>,
    d: AppDate,
)
    ensures
        seq_entry(a + b, g, d) == if seq_entry(a, g, d) is Some {
            seq_entry(a, g, d)
        } else {
            seq_entry(b, g, d)
        },
    decreases a.len(),
{
    if a.len() == 0 {
        assert(a + b =~= b);
    } else {
        assert((a + b).drop_first() =~= a.drop_first() + b);
        assert((a + b)[0] == a[0]);
        lemma_seq_entry_concat(a.drop_first(), b, g, d);
    }
}

/// Looking a key up in a one-entry store.
pub proof fn lemma_seq_entry_singleton(e: CacheEntry, g: Option<u32>, d: AppDate)
    ensures
        seq_entry(seq![e], g, d) == if key_matches(e, g, d) {
            Some(entry_view(e))
        } else {
            None::<EntryView>
        },
{
    assert(seq![e].drop_first() =~= Seq::<CacheEntry>::empty());
    assert(seq_entry(Seq::<CacheEntry>::empty(), g, d) is None);
    assert(seq![e][0] == e);
}

/// Which stored entries a purge removes.
pub enum Purge {
    /// Exactly the entry of one (group, date) key.
    Key(Option<u32>, AppDate),
    /// Every entry of one group.
    Group(u32),
}

/// True when the purge `p` covers the key `(g, d)`.
pub open spec fn purge_covers(p: Purge, g: Option<u32>, d: AppDate) -> bool {
    match p {
        Purge::Key(pg, pd) => g == pg && d == pd,
        Purge::Group(gid) => g == Some(gid),
    }
}

/// Removes every entry whose key the purge covers, keeping the rest in
/// order.
fn remove_matching(entries: &mut Vec<CacheEntry>, p: &Purge)
    ensures
        forall|g2: Option<u32>, d2: AppDate|
            #[trigger] seq_entry(final(entries)@, g2, d2) == if purge_covers(*p, g2, d2) {
                None::<EntryView>
            } else {
                seq_entry(old(entries)@, g2, d2)
            },
{
    let mut work: Vec<CacheEntry> = Vec::new();
    core::mem::swap(entries, &mut work);
    let ghost orig = work@;
    while work.len() > 0
        invariant
            orig.len() >= work@.len(),
            work@ == orig.subrange(orig.len() - work@.len(), orig.len() as int),
            forall|g2: Option<u32>, d2: AppDate|
                #[trigger] seq_entry(entries@, g2, d2) == if purge_covers(*p, g2, d2) {
                    None::<EntryView>
                } else {
                    seq_entry(orig.subrange(0, orig.len() - work@.len()), g2, d2)
                },
        decreases work@.len(),
    {
        let ghost k = orig.len() - work@.len();
        let e = work.remove(0);
        proof {
            assert(work@ =~= orig.subrange(k + 1, orig.len() as int));
            assert(e == orig[k]);
        }
        let keep = match p {
            Purge::Key(pg, pd) => !(e.group == *pg && e.date == *pd),
            Purge::Group(gid) => !(e.group == Some(*gid)),
        };
        let ghost kept_before = entries@;
        if keep {
            entries.push(e);
        }
        proof {
            let prefix = orig.subrange(0, k);
            let prefix1 = orig.subrange(0, k + 1);
            assert(prefix1 =~= prefix + seq![e]);
            assert forall|g2: Option<u32>, d2: AppDate|
                #[trigger] seq_entry(entries@, g2, d2) == if purge_covers(*p, g2, d2) {
                    None::<EntryView>
                } else {
                    seq_entry(prefix1, g2, d2)
                } by {
                lemma_seq_entry_concat(prefix, seq![e], g2, d2);
                lemma_seq_entry_singleton(e, g2, d2);
                if keep {
                    assert(entries@ =~= kept_before + seq![e]);
                    lemma_seq_entry_concat(kept_before, seq![e], g2, d2);
                    assert(!purge_covers(*p, e.group, e.date));
                } else {
                    assert(purge_covers(*p, e.group, e.date));
                }
                if purge_covers(*p, g2, d2) {
                    assert(keep ==> !key_matches(e, g2, d2));
                }
            }
        }
    }
    proof {
        assert(orig.subrange(0, orig.len() as int) =~= orig);
    }
}

/// The disk schedule cache: per-(group, date) schedule lists with an
/// age-based time-to-live, checked and enforced on read.
pub struct CacheManager {
    entries: Vec<CacheEntry>,
    ttl: u64,
    group_id: Option<u32>,
}

impl CacheManager {
    /// Time-to-live in seconds applied by subsequent reads.
    pub closed spec fn spec_ttl(self) -> u64 {
        self.ttl
    }

    /// The group that scopes newly written and read keys.
    pub closed spec fn spec_group_id(self) -> Option<u32> {
        self.group_id
    }

    /// The stored entries.
    pub closed spec fn entries_seq(self) -> Seq<CacheEntry> {
        self.entries@
    }

    /// The entry stored under `(g, d)`.
    pub open spec fn spec_entry(self, g: Option<u32>, d: AppDate) -> Option<EntryView> {
        seq_entry(self.entries_seq(), g, d)
    }

    /// An empty cache that will expire entries older than `ttl` seconds,
    /// not yet scoped to any group.
    pub fn new(ttl: u64) -> (r: CacheManager)
        ensures
            r.spec_ttl() == ttl,
            r.spec_group_id() is None,
            forall|g: Option<u32>, d: AppDate| #[trigger] r.spec_entry(g, d) is None,
    {
        CacheManager { entries: Vec::new(), ttl, group_id: None }
    }

    /// Changes the time-to-live used by subsequent reads; stored entries
    /// are not touched or re-evaluated.
    pub fn update_ttl(&mut self, ttl: u64)
        ensures
            final(self).spec_ttl() == ttl,
            final(self).spec_group_id() == old(self).spec_group_id(),
            forall|g: Option<u32>, d: AppDate| #[trigger]
                final(self).spec_entry(g, d) == old(self).spec_entry(g, d),
    {
        self.ttl = ttl;
    }

    /// Scopes subsequent reads and writes to `group_id`.
    pub fn set_group_id(&mut self, group_id: u32)
        ensures
            final(self).spec_ttl() == old(self).spec_ttl(),
            final(self).spec_group_id() == Some(group_id),
            forall|g: Option<u32>, d: AppDate| #[trigger]
                final(self).spec_entry(g, d) == old(self).spec_entry(g, d),
    {
        self.group_id = Some(group_id);
    }

    /// Reads the entry of the current group and `date`. A missing entry
    /// is a miss; an entry written later than `now` cannot be aged and is
    /// an error; an entry older than the time-to-live is deleted and
    /// reported as a miss; a fresh but corrupt entry is a hard decode
    /// error the caller must handle; anything else is returned
    /// unchanged.
    pub fn get(&mut self, date: &AppDate, now: u64) -> (r: Result<
        Option<Vec<Schedule>>,
        CacheError,
    >)
        ensures
            final(self).spec_ttl() == old(self).spec_ttl(),
            final(self).spec_group_id() == old(self).spec_group_id(),
            match old(self).spec_entry(old(self).spec_group_id(), *date) {
                None => {
                    &&& r == Ok::<Option<Vec<Schedule>>, CacheError>(None)
                    &&& *final(self) == *old(self)
                },
                Some(e) => {
                    if now < e.modified {
                        &&& r == Err::<Option<Vec<Schedule>>, CacheError>(CacheError::Io)
                        &&& *final(self) == *old(self)
                    } else if now - e.modified > old(self).spec_ttl() {
                        &&& r == Ok::<Option<Vec<Schedule>>, CacheError>(None)
                        &&& forall|g2: Option<u32>, d2: AppDate| #[trigger]
                            final(self).spec_entry(g2, d2) == if g2 == old(self).spec_group_id()
                                && d2 == *date {
                                None::<EntryView>
                            } else {
                                old(self).spec_entry(g2, d2)
                            }
                    } else if e.corrupt {
                        &&& r == Err::<Option<Vec<Schedule>>, CacheError>(CacheError::Decode)
                        &&& *final(self) == *old(self)
                    } else {
                        &&& r matches Ok(Some(v)) && scheds_view(v@) == e.data
                        &&& *final(self) == *old(self)
                    }
                },
            },
    {
        let n = self.entries.len();
        let ghost s = self.entries@;
        let mut i: usize = 0;
        let mut found = false;
        while i < n
            invariant_except_break
                !found,
            invariant
                n == s.len(),
                s == self.entries@,
                i <= n,
                seq_entry(s.subrange(0, i as int), self.group_id, *date) is None,
            ensures
                s == self.entries@,
                n == s.len(),
                i <= n,
                found ==> i < n && key_matches(s[i as int], self.group_id, *date),
                !found ==> i == n && seq_entry(s.subrange(0, i as int), self.group_id, *date)
                    is None,
            decreases n - i,
        {
            let e = &self.entries[i];
            let group_hit = match (e.group, self.group_id) {
                (Some(a), Some(b)) => a == b,
                (None, None) => true,
                _ => false,
            };
            if group_hit && e.date == *date {
                found = true;
                break;
            }
            proof {
                let pre = s.subrange(0, i as int);
                let pre1 = s.subrange(0, i + 1);
                assert(pre1 =~= pre + seq![s[i as int]]);
                assert(!key_matches(s[i as int], self.group_id, *date));
                lemma_seq_entry_concat(pre, seq![s[i as int]], self.group_id, *date);
                lemma_seq_entry_singleton(s[i as int], self.group_id, *date);
            }
            i = i + 1;
        }
        if !found {
            proof {
                assert(s.subrange(0, n as int) =~= s);
            }
            return Ok(None);
        }
        proof {
            assert(s =~= s.subrange(0, i as int) + s.subrange(i as int, n as int));
            lemma_seq_entry_concat(
                s.subrange(0, i as int),
                s.subrange(i as int, n as int),
                self.group_id,
                *date,
            );
            assert(s.subrange(i as int, n as int)[0] == s[i as int]);
            assert(seq_entry(s, self.group_id, *date) == Some(entry_view(s[i as int])));
        }
        let modified = self.entries[i].modified;
        if now < modified {
            return Err(CacheError::Io);
        }
        if now - modified > self.ttl {
            let p = Purge::Key(self.group_id, *date);
            remove_matching(&mut self.entries, &p);
            return Ok(None);
        }
        if self.entries[i].corrupt {
            return Err(CacheError::Decode);
        }
        let data = clone_schedules(&self.entries[i].data);
        Ok(Some(data))
    }

    /// Writes `data` under the current group and `date`, overwriting any
    /// previous entry; `now` becomes the entry's modification time.
    pub fn set(&mut self, date: &AppDate, data: &Vec<Schedule>, now: u64) -> (r: Result<
        (),
        CacheError,
    >)
        ensures
            r is Ok,
            final(self).spec_ttl() == old(self).spec_ttl(),
            final(self).spec_group_id() == old(self).spec_group_id(),
            forall|g2: Option<u32>, d2: AppDate| #[trigger]
                final(self).spec_entry(g2, d2) == if g2 == old(self).spec_group_id() && d2
                    == *date {
                    Some(EntryView { data: scheds_view(data@), modified: now, corrupt: false })
                } else {
                    old(self).spec_entry(g2, d2)
                },
    {
        let p = Purge::Key(self.group_id, *date);
        remove_matching(&mut self.entries, &p);
        let ghost cleared = self.entries@;
        let entry = CacheEntry {
            group: self.group_id,
            date: *date,
            data: clone_schedules(data),
            modified: now,
            corrupt: false,
        };
        self.entries.push(entry);
        proof {
            assert forall|g2: Option<u32>, d2: AppDate| #[trigger]
                seq_entry(self.entries@, g2, d2) == if g2 == old(self).spec_group_id() && d2
                    == *date {
                    Some(EntryView { data: scheds_view(data@), modified: now, corrupt: false })
                } else {
                    seq_entry(old(self).entries_seq(), g2, d2)
                } by {
                assert(self.entries@ =~= cleared + seq![entry]);
                lemma_seq_entry_concat(cleared, seq![entry], g2, d2);
                lemma_seq_entry_singleton(entry, g2, d2);
            }
        }
        Ok(())
    }

    /// Restores a persisted entry under an explicit group key, stamped
    /// with the time it was originally written; the manager's own group
    /// scope is not consulted or changed.
    pub fn seed(&mut self, group: u32, date: &AppDate, data: &Vec<Schedule>, modified: u64)
        ensures
            final(self).spec_ttl() == old(self).spec_ttl(),
            final(self).spec_group_id() == old(self).spec_group_id(),
            forall|g2: Option<u32>, d2: AppDate| #[trigger]
                final(self).spec_entry(g2, d2) == if g2 == Some(group) && d2 == *date {
                    Some(EntryView { data: scheds_view(data@), modified, corrupt: false })
                } else {
                    old(self).spec_entry(g2, d2)
                },
    {
        let p = Purge::Key(Some(group), *date);
        remove_matching(&mut self.entries, &p);
        let ghost cleared = self.entries@;
        let entry = CacheEntry {
            group: Some(group),
            date: *date,
            data: clone_schedules(data),
            modified,
            corrupt: false,
        };
        self.entries.push(entry);
        proof {
            assert forall|g2: Option<u32>, d2: AppDate| #[trigger]
                seq_entry(self.entries@, g2, d2) == if g2 == Some(group) && d2 == *date {
                    Some(EntryView { data: scheds_view(data@), modified, corrupt: false })
                } else {
                    seq_entry(old(self).entries_seq(), g2, d2)
                } by {
                assert(self.entries@ =~= cleared + seq![entry]);
                lemma_seq_entry_concat(cleared, seq![entry], g2, d2);
                lemma_seq_entry_singleton(entry, g2, d2);
            }
        }
    }

    /// Restores a persisted entry whose backing file could not be
    /// decoded: the key is occupied, ages and expires normally, and a
    /// fresh read of it surfaces the decode error.
    pub fn seed_corrupt(&mut self, group: u32, date: &AppDate, modified: u64)
        ensures
            final(self).spec_ttl() == old(self).spec_ttl(),
            final(self).spec_group_id() == old(self).spec_group_id(),
            forall|g2: Option<u32>, d2: AppDate| #[trigger]
                final(self).spec_entry(g2, d2) == if g2 == Some(group) && d2 == *date {
                    Some(EntryView { data: Seq::empty(), modified, corrupt: true })
                } else {
                    old(self).spec_entry(g2, d2)
                },
    {
        let p = Purge::Key(Some(group), *date);
        remove_matching(&mut self.entries, &p);
        let ghost cleared = self.entries@;
        let entry = CacheEntry {
            group: Some(group),
            date: *date,
            data: Vec::new(),
            modified,
            corrupt: true,
        };
        self.entries.push(entry);
        proof {
            assert(scheds_view(entry.data@) =~= Seq::<ScheduleView>::empty());
            assert forall|g2: Option<u32>, d2: AppDate| #[trigger]
                seq_entry(self.entries@, g2, d2) == if g2 == Some(group) && d2 == *date {
                    Some(EntryView { data: Seq::empty(), modified, corrupt: true })
                } else {
                    seq_entry(old(self).entries_seq(), g2, d2)
                } by {
                assert(self.entries@ =~= cleared + seq![entry]);
                lemma_seq_entry_concat(cleared, seq![entry], g2, d2);
                lemma_seq_entry_singleton(entry, g2, d2);
            }
        }
    }

    /// Removes every stored entry, for every group.
    pub fn clear(&mut self) -> (r: Result<(), CacheError>)
        ensures
            r is Ok,
            final(self).spec_ttl() == old(self).spec_ttl(),
            final(self).spec_group_id() == old(self).spec_group_id(),
            forall|g: Option<u32>, d: AppDate| #[trigger] final(self).spec_entry(g, d) is None,
    {
        self.entries.clear();
        Ok(())
    }

    /// Removes exactly the entries keyed with `group_id`; entries of
    /// other groups, and ungrouped entries, stay.
    pub fn clear_group(&mut self, group_id: u32) -> (r: Result<(), CacheError>)
        ensures
            r is Ok,
            final(self).spec_ttl() == old(self).spec_ttl(),
            final(self).spec_group_id() == old(self).spec_group_id(),
            forall|g2: Option<u32>, d2: AppDate| #[trigger]
                final(self).spec_entry(g2, d2) == if g2 == Some(group_id) {
                    None::<EntryView>
                } else {
                    old(self).spec_entry(g2, d2)
                },
    {
        let p = Purge::Group(group_id);
        remove_matching(&mut self.entries, &p);
        Ok(())
    }
}

/// The file name of the key `(group, date)`: `{group}-{date}.json` when
/// a group is scoped, `{date}.json` otherwise.
pub open spec fn spec_file_name(group: Option<u32>, date: AppDate) -> Seq<char> {
    match group {
        Some(gid) => spec_dec(gid as nat) + seq!['-'] + date.spec_iso() + seq![
            '.',
            'j',
            's',
            'o',
            'n',
        ],
        None => date.spec_iso() + seq!['.', 'j', 's', 'o', 'n'],
    }
}

/// Writing a schedule list and reading it straight back returns the
/// same content: after a successful `set` of `data` at time `t`, the
/// written key holds exactly `data`, and any read up to `ttl` seconds
/// later falls in the fresh branch of [`CacheManager::get`]'s contract,
/// which returns that content unchanged.
pub proof fn lemma_set_then_get(
    pre: CacheManager,
    post: CacheManager,
    d: AppDate,
    data: Seq<ScheduleView>,
    t: u64,
    t2: u64,
)
    requires
        forall|g2: Option<u32>, d2: AppDate| #[trigger]
            post.spec_entry(g2, d2) == if g2 == pre.spec_group_id() && d2 == d {
                Some(EntryView { data, modified: t, corrupt: false })
            } else {
                pre.spec_entry(g2, d2)
            },
        post.spec_group_id() == pre.spec_group_id(),
        post.spec_ttl() == pre.spec_ttl(),
        t <= t2,
        t2 - t <= post.spec_ttl(),
    ensures
        post.spec_entry(post.spec_group_id(), d) matches Some(e) && e.data == data && !e.corrupt
            && t2 >= e.modified && t2 - e.modified <= post.spec_ttl(),
{
}

/// Distinct keys never share a cache file name: entries of different
/// groups, or of different dates, live in different files and stay
/// independently purgeable.
pub proof fn lemma_file_name_injective(g1: Option<u32>, d1: AppDate, g2: Option<u32>, d2: AppDate)
    requires
        d1.wf(),
        d2.wf(),
        spec_file_name(g1, d1) == spec_file_name(g2, d2),
    ensures
        g1 == g2,
        d1 == d2,
{
    let n1 = spec_file_name(g1, d1);
    let n2 = spec_file_name(g2, d2);
    match (g1, g2) {
        (None, None) => {
            assert(d1.spec_iso() =~= n1.subrange(0, 10));
            assert(d2.spec_iso() =~= n2.subrange(0, 10));
            lemma_iso_injective(d1, d2);
        },
        (Some(a), Some(b)) => {
            lemma_spec_dec_len(a as nat);
            lemma_spec_dec_len(b as nat);
            let la = spec_dec(a as nat).len() as int;
            let lb = spec_dec(b as nat).len() as int;
            assert(n1.len() == la + 16 && n2.len() == lb + 16);
            assert(la == lb);
            assert(spec_dec(a as nat) =~= n1.subrange(0, la));
            assert(spec_dec(b as nat) =~= n2.subrange(0, lb));
            lemma_spec_dec_injective(a as nat, b as nat);
            assert(d1.spec_iso() =~= n1.subrange(la + 1, la + 11));
            assert(d2.spec_iso() =~= n2.subrange(lb + 1, lb + 11));
            lemma_iso_injective(d1, d2);
        },
        (Some(a), None) => {
            lemma_spec_dec_len(a as nat);
            assert(n1.len() >= 17 && n2.len() == 15);
        },
        (None, Some(b)) => {
            lemma_spec_dec_len(b as nat);
            assert(n2.len() >= 17 && n1.len() == 15);
        },
    }
}

/// True when `p` is a prefix of `s`.
pub open spec fn is_prefix_of(p: Seq<char>, s: Seq<char>) -> bool {
    p.len() <= s.len() && s.subrange(0, p.len() as int) == p
}

/// A grouped cache file name starts with `{group}-` exactly for its own
/// group, so purging a group by that prefix removes its files and no
/// other group's.
pub proof fn lemma_group_prefix_exact(g1: u32, d: AppDate, g2: u32)
    requires
        d.wf(),
    ensures
        is_prefix_of(spec_dec(g2 as nat) + seq!['-'], spec_file_name(Some(g1), d)) <==> g1 == g2,
{
    let name = spec_file_name(Some(g1), d);
    let dec1 = spec_dec(g1 as nat);
    let dec2 = spec_dec(g2 as nat);
    let prefix = dec2 + seq!['-'];
    lemma_spec_dec_len(g1 as nat);
    lemma_spec_dec_len(g2 as nat);
    lemma_spec_dec_digits(g1 as nat);
    lemma_spec_dec_digits(g2 as nat);
    assert(name.len() == dec1.len() + 16);
    if g1 == g2 {
        assert(name.subrange(0, prefix.len() as int) =~= prefix);
    }
    if is_prefix_of(prefix, name) {
        assert forall|c: char| is_digit_char(c) implies c != '-' by {
            let dgt = choose|dgt: nat| dgt < 10 && c == crate::strutil::digit_char(dgt);
            assert(crate::strutil::digit_char(dgt) != '-');
        }
        if dec2.len() < dec1.len() {
            // The prefix ends in a separator where the name still has a
            // digit of the group number.
            assert(name[dec2.len() as int] == prefix[dec2.len() as int]);
            assert(prefix[dec2.len() as int] == '-');
            assert(name[dec2.len() as int] == dec1[dec2.len() as int]);
            assert(is_digit_char(dec1[dec2.len() as int]));
            assert(false);
        } else if dec2.len() > dec1.len() {
            // The name has its separator where the prefix still has a
            // digit of the other group number.
            assert(name[dec1.len() as int] == '-');
            assert(name[dec1.len() as int] == prefix[dec1.len() as int]);
            assert(prefix[dec1.len() as int] == dec2[dec1.len() as int]);
            assert(is_digit_char(dec2[dec1.len() as int]));
            assert(false);
        } else {
            assert(dec1 =~= dec2) by {
                assert(forall|i: int|
                    0 <= i < dec1.len() ==> #[trigger] dec1[i] == name[i] && name[i] == prefix[i]
                        && prefix[i] == dec2[i]);
            }
            lemma_spec_dec_injective(g1 as nat, g2 as nat);
        }
    }
}

impl CacheManager {
    /// The name of the file backing the entry of the current group and
    /// `date`.
    pub fn cache_file_name(&self, date: &AppDate) -> (r: String)
        requires
            date.wf(),
        ensures
            r@ == spec_file_name(self.spec_group_id(), *date),
    {
        let mut s = String::new();
        match self.group_id {
            Some(gid) => {
                append_u32(&mut s, gid);
                s.append("-");
            },
            None => {},
        }
        let iso = date.iso();
        s.append(iso.as_str());
        s.append(".json");
        proof {
            reveal_strlit("-");
            reveal_strlit(".json");
            assert("-"@ =~= seq!['-']);
            assert(".json"@ =~= seq!['.', 'j', 's', 'o', 'n']);
            assert(s@ =~= spec_file_name(self.spec_group_id(), *date));
        }
        s
    }
}

} // verus!
