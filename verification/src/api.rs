//! The cache coordinator: owns the active identity, the disk schedule
//! cache and the in-memory reference list cache, and decides every read,
//! write and purge against them.
//!
//! Everything that needs the network or the clock is taken as an
//! argument: the surrounding application runs the transport, hands the
//! results in, and mirrors the decided cache changes onto disk.

use vstd::prelude::*;

use crate::cache::{CacheManager, EntryView};
use crate::config::Config;
use crate::error::{ApiError, CacheError, RemoteError};
use crate::lists::{ListData, ListKey, ListsCache};
use crate::models::{scheds_view, Schedule};
use crate::resolver::Identity;
use crate::strutil::{contains_str, spec_contains};
use crate::utils::AppDate;

verus! {

/// What a prepared fetch found: either the cached schedules, or the
/// group whose schedules must be fetched remotely.
#[derive(Debug)]
pub enum FetchStep {
    /// Served from the disk cache.
    Done(Vec<Schedule>),
    /// A remote fetch for this group is needed.
    Remote(u32),
}

/// The coordinator: configuration, resolved identity and the two cache
/// tiers.
pub struct ApiClient {
    config: Config,
    college_id: Option<u32>,
    campus_id: Option<u32>,
    group_id: Option<u32>,
    cache: Option<CacheManager>,
    lists_cache: ListsCache,
}

impl ApiClient {
    /// The active configuration.
    pub closed spec fn spec_config(self) -> Config {
        self.config
    }

    /// The resolved college.
    pub closed spec fn spec_college_id(self) -> Option<u32> {
        self.college_id
    }

    /// The resolved campus.
    pub closed spec fn spec_campus_id(self) -> Option<u32> {
        self.campus_id
    }

    /// The resolved group.
    pub closed spec fn spec_group_id(self) -> Option<u32> {
        self.group_id
    }

    /// Whether a disk cache is attached.
    pub closed spec fn spec_has_cache(self) -> bool {
        self.cache is Some
    }

    /// The disk cache's time-to-live.
    pub closed spec fn spec_cache_ttl(self) -> u64 {
        self.cache->Some_0.spec_ttl()
    }

    /// The group the disk cache keys new entries with.
    pub closed spec fn spec_cache_group(self) -> Option<u32> {
        self.cache->Some_0.spec_group_id()
    }

    /// The disk cache entry under `(g, d)`, when a disk cache is
    /// attached.
    pub closed spec fn spec_cached(self, g: Option<u32>, d: AppDate) -> Option<EntryView> {
        match self.cache {
            Some(c) => c.spec_entry(g, d),
            None => None,
        }
    }

    /// The reference list cache.
    pub closed spec fn spec_lists(self) -> ListsCache {
        self.lists_cache
    }

    /// Builds a coordinator around a resolved identity. The disk cache
    /// is attached only when the configuration enables it, starts empty
    /// here, takes its time-to-live from the configuration and is scoped
    /// to the resolved group.
    pub fn new(config: Config, identity: Identity) -> (r: ApiClient)
        ensures
            r.spec_config() == config,
            r.spec_college_id() == Some(identity.college_id),
            r.spec_campus_id() == Some(identity.campus_id),
            r.spec_group_id() == Some(identity.group_id),
            r.spec_has_cache() == config.main.app.cache_enabled,
            r.spec_has_cache() ==> {
                &&& r.spec_cache_ttl() == config.main.app.cache_ttl
                &&& r.spec_cache_group() == Some(identity.group_id)
                &&& forall|g: Option<u32>, d: AppDate| #[trigger] r.spec_cached(g, d) is None
            },
            forall|k: ListKey| #[trigger] r.spec_lists().spec_entry(k) is None,
    {
        let cache = if config.cache_enabled() {
            let mut c = CacheManager::new(config.cache_ttl());
            c.set_group_id(identity.group_id);
            Some(c)
        } else {
            None
        };
        ApiClient {
            config,
            college_id: Some(identity.college_id),
            campus_id: Some(identity.campus_id),
            group_id: Some(identity.group_id),
            cache,
            lists_cache: ListsCache::new(),
        }
    }

    /// Builds a coordinator with no identity resolved yet, for when
    /// resolution failed and the user must pick interactively. The disk
    /// cache is attached per the configuration but scoped to no group.
    pub fn new_base(config: Config) -> (r: ApiClient)
        ensures
            r.spec_config() == config,
            r.spec_college_id() is None,
            r.spec_campus_id() is None,
            r.spec_group_id() is None,
            r.spec_has_cache() == config.main.app.cache_enabled,
            r.spec_has_cache() ==> {
                &&& r.spec_cache_ttl() == config.main.app.cache_ttl
                &&& r.spec_cache_group() is None
                &&& forall|g: Option<u32>, d: AppDate| #[trigger] r.spec_cached(g, d) is None
            },
            forall|k: ListKey| #[trigger] r.spec_lists().spec_entry(k) is None,
    {
        let cache = if config.cache_enabled() {
            Some(CacheManager::new(config.cache_ttl()))
        } else {
            None
        };
        ApiClient {
            config,
            college_id: None,
            campus_id: None,
            group_id: None,
            cache,
            lists_cache: ListsCache::new(),
        }
    }

    /// Adopts a new configuration and freshly resolved identity: the
    /// disk cache's time-to-live follows the new configuration, new
    /// entries are keyed with the new group, and exactly when the group
    /// changed, the old group's entries are purged — entries of other
    /// groups and the whole reference list cache stay. Returns the group
    /// that was purged, which the caller mirrors on disk.
    pub fn reconfigure_apply(&mut self, config: Config, identity: Identity) -> (purged: Option<
        u32,
    >)
        ensures
            final(self).spec_config() == config,
            final(self).spec_college_id() == Some(identity.college_id),
            final(self).spec_campus_id() == Some(identity.campus_id),
            final(self).spec_group_id() == Some(identity.group_id),
            final(self).spec_lists() == old(self).spec_lists(),
            final(self).spec_has_cache() == old(self).spec_has_cache(),
            !old(self).spec_has_cache() ==> purged is None,
            old(self).spec_has_cache() ==> {
                &&& final(self).spec_cache_ttl() == config.main.app.cache_ttl
                &&& final(self).spec_cache_group() == Some(identity.group_id)
                &&& match old(self).spec_group_id() {
                    Some(g) => {
                        &&& g != identity.group_id ==> purged == Some(g) && (forall|
                            g2: Option<u32>,
                            d2: AppDate,
                        | #[trigger]
                            final(self).spec_cached(g2, d2) == if g2 == Some(g) {
                                None::<EntryView>
                            } else {
                                old(self).spec_cached(g2, d2)
                            })
                        &&& g == identity.group_id ==> purged is None && (forall|
                            g2: Option<u32>,
                            d2: AppDate,
                        | #[trigger]
                            final(self).spec_cached(g2, d2) == old(self).spec_cached(g2, d2))
                    },
                    None => {
                        &&& purged is None
                        &&& forall|g2: Option<u32>, d2: AppDate| #[trigger]
                            final(self).spec_cached(g2, d2) == old(self).spec_cached(g2, d2)
                    },
                }
            },
    {
        let old_group_id = self.group_id;
        let ttl = config.cache_ttl();
        self.config = config;
        match &mut self.cache {
            Some(c) => {
                c.update_ttl(ttl);
                c.set_group_id(identity.group_id);
            },
            None => {},
        }
        self.college_id = Some(identity.college_id);
        self.campus_id = Some(identity.campus_id);
        self.group_id = Some(identity.group_id);
        let purge = match old_group_id {
            Some(g) => g != identity.group_id,
            None => false,
        };
        if purge {
            let g = match old_group_id {
                Some(g) => g,
                None => {
                    proof {
                        assert(false);
                    }
                    vstd::pervasive::unreached()
                },
            };
            match &mut self.cache {
                Some(c) => {
                    let _ = c.clear_group(g);
                    Some(g)
                },
                None => None,
            }
        } else {
            None
        }
    }

    /// The first half of a schedule fetch: serves the current group's
    /// entry for `date` from the disk cache when it is present and
    /// fresh — an expired entry is deleted on the way — and otherwise
    /// names the group to fetch remotely. Fails when the cache cannot
    /// age an entry, when a fresh entry cannot be decoded, or when no
    /// group is resolved on a miss.
    pub fn fetch_prepare(&mut self, date: &AppDate, now: u64) -> (r: Result<FetchStep, ApiError>)
        ensures
            final(self).spec_config() == old(self).spec_config(),
            final(self).spec_college_id() == old(self).spec_college_id(),
            final(self).spec_campus_id() == old(self).spec_campus_id(),
            final(self).spec_group_id() == old(self).spec_group_id(),
            final(self).spec_lists() == old(self).spec_lists(),
            final(self).spec_has_cache() == old(self).spec_has_cache(),
            final(self).spec_has_cache() ==> final(self).spec_cache_ttl() == old(
                self,
            ).spec_cache_ttl(),
            final(self).spec_has_cache() ==> final(self).spec_cache_group() == old(
                self,
            ).spec_cache_group(),
            match old(self).spec_cached(old(self).spec_cache_group(), *date) {
                Some(e) => {
                    if now < e.modified {
                        &&& r == Err::<FetchStep, ApiError>(ApiError::Cache(CacheError::Io))
                        &&& *final(self) == *old(self)
                    } else if now - e.modified > old(self).spec_cache_ttl() {
                        &&& fetch_miss_result(*old(self), r)
                        &&& forall|g2: Option<u32>, d2: AppDate| #[trigger]
                            final(self).spec_cached(g2, d2) == if g2 == old(
                                self,
                            ).spec_cache_group() && d2 == *date {
                                None::<EntryView>
                            } else {
                                old(self).spec_cached(g2, d2)
                            }
                    } else if e.corrupt {
                        &&& r == Err::<FetchStep, ApiError>(ApiError::Cache(CacheError::Decode))
                        &&& *final(self) == *old(self)
                    } else {
                        &&& r matches Ok(FetchStep::Done(v)) && scheds_view(v@) == e.data
                        &&& *final(self) == *old(self)
                    }
                },
                _ => {
                    &&& fetch_miss_result(*old(self), r)
                    &&& *final(self) == *old(self)
                },
            },
    {
        match &mut self.cache {
            Some(c) => {
                match c.get(date, now) {
                    Err(e) => {
                        return Err(ApiError::Cache(e));
                    },
                    Ok(Some(v)) => {
                        return Ok(FetchStep::Done(v));
                    },
                    Ok(None) => {},
                }
            },
            None => {},
        }
        match self.group_id {
            Some(g) => Ok(FetchStep::Remote(g)),
            None => Err(ApiError::GroupNotSet),
        }
    }

    /// The second half of a schedule fetch: takes what the transport
    /// returned for the current group and `date`. A successful answer is
    /// written through to the disk cache and returned; a failure the
    /// transport marked as an empty schedule, or whose message carries
    /// the textual empty-schedule signal, counts as a successful empty
    /// day; any other failure is surfaced. The write-through can never
    /// turn a successful fetch into a failure.
    pub fn fetch_finish(&mut self, date: &AppDate, now: u64, remote: Result<
        Vec<Schedule>,
        RemoteError,
    >) -> (r: Result<Vec<Schedule>, ApiError>)
        ensures
            final(self).spec_config() == old(self).spec_config(),
            final(self).spec_college_id() == old(self).spec_college_id(),
            final(self).spec_campus_id() == old(self).spec_campus_id(),
            final(self).spec_group_id() == old(self).spec_group_id(),
            final(self).spec_lists() == old(self).spec_lists(),
            final(self).spec_has_cache() == old(self).spec_has_cache(),
            final(self).spec_has_cache() ==> final(self).spec_cache_ttl() == old(
                self,
            ).spec_cache_ttl(),
            final(self).spec_has_cache() ==> final(self).spec_cache_group() == old(
                self,
            ).spec_cache_group(),
            match remote {
                Ok(data) => {
                    &&& r matches Ok(v) && scheds_view(v@) == scheds_view(data@)
                    &&& written_through(*old(self), *final(self), *date, scheds_view(data@), now)
                },
                Err(e) => {
                    if e.empty_result || spec_empty_signal(e.message@) {
                        &&& r matches Ok(v) && v@.len() == 0
                        &&& written_through(*old(self), *final(self), *date, Seq::empty(), now)
                    } else {
                        &&& r matches Err(ApiError::Network(m)) && m@ == e.message@
                        &&& *final(self) == *old(self)
                    }
                },
            },
    {
        let ghost remote0 = remote;
        let schedules: Vec<Schedule> = match remote {
            Ok(data) => data,
            Err(e) => {
                let empty = e.empty_result || contains_str(e.message.as_str(), "null")
                    || contains_str(e.message.as_str(), "expected a sequence");
                if empty {
                    Vec::new()
                } else {
                    return Err(ApiError::Network(e.message));
                }
            },
        };
        match &mut self.cache {
            Some(c) => {
                let _ = c.set(date, &schedules, now);
            },
            None => {},
        }
        proof {
            if remote0 matches Err(e) && (e.empty_result || spec_empty_signal(e.message@)) {
                assert(scheds_view(schedules@) =~= Seq::<crate::models::ScheduleView>::empty());
            }
            assert(written_through(*old(self), *self, *date, scheds_view(schedules@), now));
        }
        Ok(schedules)
    }

    /// Restores one persisted disk entry into the cache model, keyed
    /// with the group it was stored under and stamped with its file's
    /// modification time; without an attached cache nothing changes.
    pub fn seed_cache_entry(
        &mut self,
        group: u32,
        date: &AppDate,
        data: &Vec<Schedule>,
        modified: u64,
    )
        ensures
            final(self).spec_config() == old(self).spec_config(),
            final(self).spec_college_id() == old(self).spec_college_id(),
            final(self).spec_campus_id() == old(self).spec_campus_id(),
            final(self).spec_group_id() == old(self).spec_group_id(),
            final(self).spec_lists() == old(self).spec_lists(),
            final(self).spec_has_cache() == old(self).spec_has_cache(),
            final(self).spec_has_cache() ==> final(self).spec_cache_ttl() == old(
                self,
            ).spec_cache_ttl(),
            final(self).spec_has_cache() ==> final(self).spec_cache_group() == old(
                self,
            ).spec_cache_group(),
            old(self).spec_has_cache() ==> forall|g2: Option<u32>, d2: AppDate| #[trigger]
                final(self).spec_cached(g2, d2) == if g2 == Some(group) && d2 == *date {
                    Some(
                        EntryView {
                            data: crate::models::scheds_view(data@),
                            modified,
                            corrupt: false,
                        },
                    )
                } else {
                    old(self).spec_cached(g2, d2)
                },
            !old(self).spec_has_cache() ==> *final(self) == *old(self),
    {
        match &mut self.cache {
            Some(c) => {
                c.seed(group, date, data, modified);
            },
            None => {},
        }
    }

    /// Restores one persisted disk entry whose file could not be
    /// decoded: the key is held in a corrupt state, so a fresh read of
    /// it surfaces the decode error instead of silently missing.
    pub fn seed_corrupt_cache_entry(&mut self, group: u32, date: &AppDate, modified: u64)
        ensures
            final(self).spec_config() == old(self).spec_config(),
            final(self).spec_college_id() == old(self).spec_college_id(),
            final(self).spec_campus_id() == old(self).spec_campus_id(),
            final(self).spec_group_id() == old(self).spec_group_id(),
            final(self).spec_lists() == old(self).spec_lists(),
            final(self).spec_has_cache() == old(self).spec_has_cache(),
            final(self).spec_has_cache() ==> final(self).spec_cache_ttl() == old(
                self,
            ).spec_cache_ttl(),
            final(self).spec_has_cache() ==> final(self).spec_cache_group() == old(
                self,
            ).spec_cache_group(),
            old(self).spec_has_cache() ==> forall|g2: Option<u32>, d2: AppDate| #[trigger]
                final(self).spec_cached(g2, d2) == if g2 == Some(group) && d2 == *date {
                    Some(EntryView { data: Seq::empty(), modified, corrupt: true })
                } else {
                    old(self).spec_cached(g2, d2)
                },
            !old(self).spec_has_cache() ==> *final(self) == *old(self),
    {
        match &mut self.cache {
            Some(c) => {
                c.seed_corrupt(group, date, modified);
            },
            None => {},
        }
    }

    /// Returns the reference list cached under `key` if it was captured
    /// less than the freshness window ago; the caller fetches and then
    /// stores on a miss.
    pub fn cached_list(&self, key: &ListKey, now: u64) -> (r: Option<ListData>)
        ensures
            match self.spec_lists().spec_lookup(*key, now) {
                Some(dv) => r matches Some(d) && d@ == dv,
                None => r is None,
            },
    {
        self.lists_cache.lookup(key, now)
    }

    /// Stores a freshly fetched reference list under `key`, stamped with
    /// the time of capture.
    pub fn store_list(&mut self, key: &ListKey, data: ListData, now: u64)
        ensures
            final(self).spec_config() == old(self).spec_config(),
            final(self).spec_college_id() == old(self).spec_college_id(),
            final(self).spec_campus_id() == old(self).spec_campus_id(),
            final(self).spec_group_id() == old(self).spec_group_id(),
            final(self).cache_part_unchanged(*old(self)),
            forall|k2: ListKey| #[trigger]
                final(self).spec_lists().spec_entry(k2) == if k2 == *key {
                    Some((data@, now))
                } else {
                    old(self).spec_lists().spec_entry(k2)
                },
    {
        self.lists_cache.store(key, data, now);
    }

    /// True when the disk cache tier of `self` is exactly that of `pre`.
    pub open spec fn cache_part_unchanged(self, pre: ApiClient) -> bool {
        &&& self.spec_has_cache() == pre.spec_has_cache()
        &&& self.spec_has_cache() ==> {
            &&& self.spec_cache_ttl() == pre.spec_cache_ttl()
            &&& self.spec_cache_group() == pre.spec_cache_group()
            &&& forall|g2: Option<u32>, d2: AppDate| #[trigger]
                self.spec_cached(g2, d2) == pre.spec_cached(g2, d2)
        }
    }

    /// The force-refresh action: empties the disk schedule cache for
    /// every group and drops every reference list, fresh or stale.
    pub fn clear_cache(&mut self) -> (r: Result<(), ApiError>)
        ensures
            r is Ok,
            final(self).spec_config() == old(self).spec_config(),
            final(self).spec_college_id() == old(self).spec_college_id(),
            final(self).spec_campus_id() == old(self).spec_campus_id(),
            final(self).spec_group_id() == old(self).spec_group_id(),
            final(self).spec_has_cache() == old(self).spec_has_cache(),
            final(self).spec_has_cache() ==> final(self).spec_cache_ttl() == old(
                self,
            ).spec_cache_ttl(),
            final(self).spec_has_cache() ==> final(self).spec_cache_group() == old(
                self,
            ).spec_cache_group(),
            forall|g2: Option<u32>, d2: AppDate| #[trigger] final(self).spec_cached(g2, d2)
                is None,
            forall|k: ListKey| #[trigger] final(self).spec_lists().spec_entry(k) is None,
    {
        match &mut self.cache {
            Some(c) => {
                let _ = c.clear();
            },
            None => {},
        }
        self.lists_cache.clear();
        Ok(())
    }

    /// Purges the disk cache entries of the currently resolved group,
    /// leaving other groups' entries in place.
    pub fn clear_current_group_cache(&mut self) -> (r: Result<(), ApiError>)
        ensures
            r is Ok,
            final(self).spec_config() == old(self).spec_config(),
            final(self).spec_college_id() == old(self).spec_college_id(),
            final(self).spec_campus_id() == old(self).spec_campus_id(),
            final(self).spec_group_id() == old(self).spec_group_id(),
            final(self).spec_lists() == old(self).spec_lists(),
            final(self).spec_has_cache() == old(self).spec_has_cache(),
            final(self).spec_has_cache() ==> final(self).spec_cache_ttl() == old(
                self,
            ).spec_cache_ttl(),
            final(self).spec_has_cache() ==> final(self).spec_cache_group() == old(
                self,
            ).spec_cache_group(),
            match (old(self).spec_has_cache(), old(self).spec_group_id()) {
                (true, Some(g)) => forall|g2: Option<u32>, d2: AppDate| #[trigger]
                    final(self).spec_cached(g2, d2) == if g2 == Some(g) {
                        None::<EntryView>
                    } else {
                        old(self).spec_cached(g2, d2)
                    },
                _ => *final(self) == *old(self),
            },
    {
        let g = match (self.cache.is_some(), self.group_id) {
            (true, Some(g)) => g,
            _ => {
                return Ok(());
            },
        };
        match &mut self.cache {
            Some(c) => {
                let _ = c.clear_group(g);
            },
            None => {},
        }
        Ok(())
    }

    /// The resolved college.
    pub fn college_id(&self) -> (r: Option<u32>)
        ensures
            r == self.spec_college_id(),
    {
        self.college_id
    }

    /// The resolved campus.
    pub fn campus_id(&self) -> (r: Option<u32>)
        ensures
            r == self.spec_campus_id(),
    {
        self.campus_id
    }

    /// The resolved group.
    pub fn group_id(&self) -> (r: Option<u32>)
        ensures
            r == self.spec_group_id(),
    {
        self.group_id
    }

    /// The active configuration.
    pub fn config(&self) -> (r: &Config)
        ensures
            *r == self.spec_config(),
    {
        &self.config
    }
}

/// On a disk cache miss the prepared fetch names the resolved group, or
/// fails when none is resolved.
pub open spec fn fetch_miss_result(pre: ApiClient, r: Result<FetchStep, ApiError>) -> bool {
    match pre.spec_group_id() {
        Some(g) => r == Ok::<FetchStep, ApiError>(FetchStep::Remote(g)),
        None => r == Err::<FetchStep, ApiError>(ApiError::GroupNotSet),
    }
}

/// True when `post` is `pre` with `data` written to the disk cache under
/// the current group and `date` at time `now` — or `pre` untouched when
/// no disk cache is attached.
pub open spec fn written_through(
    pre: ApiClient,
    post: ApiClient,
    date: AppDate,
    data: Seq<crate::models::ScheduleView>,
    now: u64,
) -> bool {
    &&& post.spec_has_cache() == pre.spec_has_cache()
    &&& if pre.spec_has_cache() {
        &&& post.spec_cache_ttl() == pre.spec_cache_ttl()
        &&& post.spec_cache_group() == pre.spec_cache_group()
        &&& forall|g2: Option<u32>, d2: AppDate| #[trigger]
            post.spec_cached(g2, d2) == if g2 == pre.spec_cache_group() && d2 == date {
                Some(EntryView { data, modified: now, corrupt: false })
            } else {
                pre.spec_cached(g2, d2)
            }
    } else {
        post == pre
    }
}

/// The transport's way of reporting a day with no schedule: an error
/// message naming a null or missing sequence rather than a hard failure.
pub open spec fn spec_empty_signal(msg: Seq<char>) -> bool {
    spec_contains(msg, "null"@) || spec_contains(msg, "expected a sequence"@)
}

} // verus!
