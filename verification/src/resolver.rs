//! Identity resolution: turning the configured college / campus / group
//! names or IDs into one concrete numeric identity.
//!
//! Resolution works dimension by dimension in a fixed order — college,
//! then campus, then group. A dimension with no configured name takes
//! its numeric ID straight from the configuration; a named dimension
//! needs one remote list query, whose result is handed back through an
//! `apply_*` call. [`Resolution::next_query`] names the single query
//! that is due next, so the surrounding application only runs the
//! transport.

use vstd::prelude::*;

use crate::config::Api;
use crate::error::{ApiError, EntityKind};
use crate::models::{Campus, College, Group};
use crate::strutil::{contains_str, lower_of, lowercase, spec_contains};

verus! {

/// A fully numeric, server-confirmed identity.
#[derive(Debug, Clone, Copy, PartialEq, Eq, Structural)]
pub struct Identity {
    pub college_id: u32,
    pub campus_id: u32,
    pub group_id: u32,
}

/// One remote list query that resolution needs.
#[derive(Debug)]
pub enum ResolveQuery {
    /// List the colleges matching `name`.
    Colleges { name: String },
    /// List the campuses of the resolved college.
    Campuses { college_id: u32 },
    /// List the groups of the resolved campus matching `name`.
    Groups { campus_id: u32, name: String },
}

/// The id of the first campus whose lowercased name contains `filter`.
pub open spec fn spec_first_campus_match(cs: Seq<Campus>, filter: Seq<char>) -> Option<u32>
    decreases cs.len(),
{
    if cs.len() == 0 {
        None
    } else if spec_contains(lower_of(cs[0].name@), filter) {
        Some(cs[0].id)
    } else {
        spec_first_campus_match(cs.drop_first(), filter)
    }
}

/// Searching concatenated campus lists reads the left list first.
proof fn lemma_campus_match_concat(a: Seq<Campus>, b: Seq<Campus>, filter: Seq<char>)
    ensures
        spec_first_campus_match(a + b, filter) == if spec_first_campus_match(a, filter)
            is Some {
            spec_first_campus_match(a, filter)
        } else {
            spec_first_campus_match(b, filter)
        },
    decreases a.len(),
{
    if a.len() == 0 {
        assert(a + b =~= b);
    } else {
        assert((a + b).drop_first() =~= a.drop_first() + b);
        assert((a + b)[0] == a[0]);
        lemma_campus_match_concat(a.drop_first(), b, filter);
    }
}

/// An in-progress resolution: the configured identity section and the
/// dimensions already settled.
pub struct Resolution {
    api: Api,
    college_id: Option<u32>,
    campus_id: Option<u32>,
    group_id: Option<u32>,
}

impl Resolution {
    /// The identity section being resolved.
    pub closed spec fn spec_api(self) -> Api {
        self.api
    }

    /// The settled college, if any.
    pub closed spec fn spec_college_id(self) -> Option<u32> {
        self.college_id
    }

    /// The settled campus, if any.
    pub closed spec fn spec_campus_id(self) -> Option<u32> {
        self.campus_id
    }

    /// The settled group, if any.
    pub closed spec fn spec_group_id(self) -> Option<u32> {
        self.group_id
    }

    /// An unsettled dimension always has a configured name to look up.
    pub open spec fn wf(self) -> bool {
        &&& self.spec_college_id() is None ==> self.spec_api().college_name is Some
        &&& self.spec_campus_id() is None ==> self.spec_api().campus_name is Some
        &&& self.spec_group_id() is None ==> self.spec_api().group_name is Some
    }

    /// Starts a resolution: every dimension without a configured name is
    /// settled at once from its numeric ID; named dimensions await their
    /// list query.
    pub fn start(api: Api) -> (r: Resolution)
        ensures
            r.wf(),
            r.spec_api() == api,
            r.spec_college_id() == if api.college_name is Some {
                None::<u32>
            } else {
                Some(api.college_id)
            },
            r.spec_campus_id() == if api.campus_name is Some {
                None::<u32>
            } else {
                Some(api.campus_id)
            },
            r.spec_group_id() == if api.group_name is Some {
                None::<u32>
            } else {
                Some(api.group_id)
            },
    {
        let college_id = match &api.college_name {
            Some(_) => None,
            None => Some(api.college_id),
        };
        let campus_id = match &api.campus_name {
            Some(_) => None,
            None => Some(api.campus_id),
        };
        let group_id = match &api.group_name {
            Some(_) => None,
            None => Some(api.group_id),
        };
        Resolution { api, college_id, campus_id, group_id }
    }

    /// The query that is due next: the college lookup first, then the
    /// campus list, then the group lookup; nothing once all three
    /// dimensions are settled.
    pub fn next_query(&self) -> (r: Option<ResolveQuery>)
        requires
            self.wf(),
        ensures
            match r {
                Some(q) => match q {
                    ResolveQuery::Colleges { name } => {
                        &&& self.spec_college_id() is None
                        &&& self.spec_api().college_name matches Some(n) && name@ == n@
                    },
                    ResolveQuery::Campuses { college_id } => {
                        &&& self.spec_college_id() == Some(college_id)
                        &&& self.spec_campus_id() is None
                    },
                    ResolveQuery::Groups { campus_id, name } => {
                        &&& self.spec_college_id() is Some
                        &&& self.spec_campus_id() == Some(campus_id)
                        &&& self.spec_group_id() is None
                        &&& self.spec_api().group_name matches Some(n) && name@ == n@
                    },
                },
                None => {
                    &&& self.spec_college_id() is Some
                    &&& self.spec_campus_id() is Some
                    &&& self.spec_group_id() is Some
                },
            },
    {
        if self.college_id.is_none() {
            let name = match &self.api.college_name {
                Some(n) => n.clone(),
                None => {
                    proof {
                        assert(false);
                    }
                    vstd::pervasive::unreached()
                },
            };
            Some(ResolveQuery::Colleges { name })
        } else if self.campus_id.is_none() {
            let college_id = match self.college_id {
                Some(id) => id,
                None => {
                    proof {
                        assert(false);
                    }
                    vstd::pervasive::unreached()
                },
            };
            Some(ResolveQuery::Campuses { college_id })
        } else if self.group_id.is_none() {
            let campus_id = match self.campus_id {
                Some(id) => id,
                None => {
                    proof {
                        assert(false);
                    }
                    vstd::pervasive::unreached()
                },
            };
            let name = match &self.api.group_name {
                Some(n) => n.clone(),
                None => {
                    proof {
                        assert(false);
                    }
                    vstd::pervasive::unreached()
                },
            };
            Some(ResolveQuery::Groups { campus_id, name })
        } else {
            None
        }
    }

    /// Settles the college from the server's answer to the college
    /// query: the server filters by name, so the first reported match
    /// wins; an empty answer is fatal.
    pub fn apply_colleges(&mut self, list: &Vec<College>) -> (r: Result<(), ApiError>)
        requires
            old(self).wf(),
            old(self).spec_college_id() is None,
        ensures
            final(self).wf(),
            final(self).spec_api() == old(self).spec_api(),
            final(self).spec_campus_id() == old(self).spec_campus_id(),
            final(self).spec_group_id() == old(self).spec_group_id(),
            if list@.len() > 0 {
                &&& r is Ok
                &&& final(self).spec_college_id() == Some(list@[0].college_id)
            } else {
                &&& r matches Err(ApiError::NotFound { kind, name }) && kind == EntityKind::College
                    && (old(self).spec_api().college_name matches Some(n) && name@ == n@)
                &&& final(self).spec_college_id() is None
            },
    {
        if list.len() > 0 {
            self.college_id = Some(list[0].college_id);
            Ok(())
        } else {
            let name = match &self.api.college_name {
                Some(n) => n.clone(),
                None => {
                    proof {
                        assert(false);
                    }
                    vstd::pervasive::unreached()
                },
            };
            Err(ApiError::NotFound { kind: EntityKind::College, name })
        }
    }

    /// Settles the campus from the full campus list of the resolved
    /// college: the first campus whose name contains the configured
    /// name, case-insensitively, wins; no match is fatal.
    pub fn apply_campuses(&mut self, list: &Vec<Campus>) -> (r: Result<(), ApiError>)
        requires
            old(self).wf(),
            old(self).spec_campus_id() is None,
        ensures
            final(self).wf(),
            final(self).spec_api() == old(self).spec_api(),
            final(self).spec_college_id() == old(self).spec_college_id(),
            final(self).spec_group_id() == old(self).spec_group_id(),
            old(self).spec_api().campus_name matches Some(n) && match spec_first_campus_match(
                list@,
                lower_of(n@),
            ) {
                Some(id) => r is Ok && final(self).spec_campus_id() == Some(id),
                None => {
                    &&& r matches Err(ApiError::NotFound { kind, name }) && kind
                        == EntityKind::Campus && name@ == n@
                    &&& final(self).spec_campus_id() is None
                },
            },
    {
        let wanted = match &self.api.campus_name {
            Some(n) => n.clone(),
            None => {
                proof {
                    assert(false);
                }
                vstd::pervasive::unreached()
            },
        };
        let filter = lowercase(wanted.as_str());
        let n = list.len();
        let ghost s = list@;
        let mut i: usize = 0;
        while i < n
            invariant
                old(self).wf(),
                old(self).spec_campus_id() is None,
                old(self).spec_api().campus_name matches Some(nm) && wanted@ == nm@,
                *self == *old(self),
                n == s.len(),
                s == list@,
                i <= n,
                spec_first_campus_match(s.subrange(0, i as int), lower_of(wanted@)) is None,
                filter@ == lower_of(wanted@),
            decreases n - i,
        {
            let lowered = lowercase(list[i].name.as_str());
            let hit = contains_str(lowered.as_str(), filter.as_str());
            proof {
                let pre = s.subrange(0, i as int);
                let pre1 = s.subrange(0, i + 1);
                assert(pre1 =~= pre + seq![s[i as int]]);
                lemma_campus_match_concat(pre, seq![s[i as int]], lower_of(wanted@));
                assert(seq![s[i as int]].drop_first() =~= Seq::<Campus>::empty());
                assert(spec_first_campus_match(Seq::<Campus>::empty(), lower_of(wanted@))
                    is None);
                assert(seq![s[i as int]][0] == s[i as int]);
                assert(s =~= pre1 + s.subrange(i + 1, n as int));
                lemma_campus_match_concat(pre1, s.subrange(i + 1, n as int), lower_of(wanted@));
            }
            if hit {
                proof {
                    assert(spec_first_campus_match(s, lower_of(wanted@)) == Some(s[i as int].id));
                }
                self.campus_id = Some(list[i].id);
                return Ok(());
            }
            i = i + 1;
        }
        proof {
            assert(s.subrange(0, n as int) =~= s);
        }
        Err(ApiError::NotFound { kind: EntityKind::Campus, name: wanted })
    }

    /// Settles the group from the server's answer to the group query:
    /// the server filters by name, so the first reported match wins; an
    /// empty answer is fatal.
    pub fn apply_groups(&mut self, list: &Vec<Group>) -> (r: Result<(), ApiError>)
        requires
            old(self).wf(),
            old(self).spec_group_id() is None,
        ensures
            final(self).wf(),
            final(self).spec_api() == old(self).spec_api(),
            final(self).spec_college_id() == old(self).spec_college_id(),
            final(self).spec_campus_id() == old(self).spec_campus_id(),
            if list@.len() > 0 {
                &&& r is Ok
                &&& final(self).spec_group_id() == Some(list@[0].id)
            } else {
                &&& r matches Err(ApiError::NotFound { kind, name }) && kind == EntityKind::Group
                    && (old(self).spec_api().group_name matches Some(n) && name@ == n@)
                &&& final(self).spec_group_id() is None
            },
    {
        if list.len() > 0 {
            self.group_id = Some(list[0].id);
            Ok(())
        } else {
            let name = match &self.api.group_name {
                Some(n) => n.clone(),
                None => {
                    proof {
                        assert(false);
                    }
                    vstd::pervasive::unreached()
                },
            };
            Err(ApiError::NotFound { kind: EntityKind::Group, name })
        }
    }

    /// The resolved identity, once all three dimensions are settled.
    pub fn identity(&self) -> (r: Option<Identity>)
        ensures
            match r {
                Some(id) => {
                    &&& self.spec_college_id() == Some(id.college_id)
                    &&& self.spec_campus_id() == Some(id.campus_id)
                    &&& self.spec_group_id() == Some(id.group_id)
                },
                None => {
                    self.spec_college_id() is None || self.spec_campus_id() is None
                        || self.spec_group_id() is None
                },
            },
    {
        match (self.college_id, self.campus_id, self.group_id) {
            (Some(college_id), Some(campus_id), Some(group_id)) => Some(
                Identity { college_id, campus_id, group_id },
            ),
            _ => None,
        }
    }
}

} // verus!
