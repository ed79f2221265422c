//! Service states per project, and the registry of project paths.
use vstd::prelude::*;
use crate::config::{ServiceState, ServiceStateView, ServiceStatus, fresh_state, opt_view};
use crate::namemap::{NameMap, lemma_empty_view, lemma_update_entry};
use crate::text::{owned, str_eq};
use crate::config::strings_view;

verus! {

/// Service states of every project, and the known project paths.
#[derive(Debug)]
pub struct AppState {
    /// Maps project name to service states.
    pub services: NameMap<NameMap<ServiceState>>,
    /// Known project paths.
    pub known_projects: Vec<String>,
}

impl AppState {
    /// Keys of the project map and of every project's service map are distinct.
    pub open spec fn wf(&self) -> bool {
        &&& self.services.wf()
        &&& forall|p: Seq<char>| #[trigger]
            self.services@.contains_key(p) ==> self.services@[p].wf()
    }

    /// The state recorded for a project's service.
    pub open spec fn state_of(&self, project: Seq<char>, service: Seq<char>) -> Option<
        ServiceState,
    > {
        if self.services@.contains_key(project) && self.services@[project]@.contains_key(service) {
            Some(self.services@[project]@[service])
        } else {
            None
        }
    }

    /// Every state is stored under its own service name. An empty state has
    /// this property, and `set_service_state` and `init_project_services`
    /// keep it.
    pub open spec fn names_match(&self) -> bool {
        forall|p: Seq<char>, q: Seq<char>| #[trigger] self.state_of(p, q) matches Some(st) ==> st.name@ == q
    }

    /// No projects and no states.
    pub fn new() -> (s: Self)
        ensures
            s.wf(),
            s.names_match(),
            s.services@ == Map::<Seq<char>, NameMap<ServiceState>>::empty(),
            s.known_projects@.len() == 0,
    {
        let s = AppState { services: NameMap::new(), known_projects: Vec::new() };
        proof {
            lemma_empty_view(&s.services);
        }
        s
    }

    /// The state of a project's service.
    pub fn get_service_state(&self, project: &str, service: &str) -> (r: Option<&ServiceState>)
        ensures
            match r {
                Some(st) => self.state_of(project@, service@) == Some(*st),
                None => self.state_of(project@, service@) is None,
            },
    {
        match self.services.get(project) {
            Some(m) => m.get(service),
            None => None,
        }
    }

    /// `after` is `before` with the state of one project's service replaced by `v`,
    /// at entry `i` of the project map and entry `j` of that project's services.
    pub open spec fn replaced_at(before: Self, after: Self, project: Seq<char>, service: Seq<char>, i: int, j: int, v: ServiceState) -> bool {
        &&& 0 <= i < before.services.pairs().len()
        &&& before.services.pairs()[i].0 == project
        &&& after.services.pairs() == before.services.pairs().update(i, (project, after.services.pairs()[i].1))
        &&& 0 <= j < before.services.pairs()[i].1.pairs().len()
        &&& before.services.pairs()[i].1.pairs()[j].0 == service
        &&& after.services.pairs()[i].1.pairs() == before.services.pairs()[i].1.pairs().update(j, (service, v))
        &&& after.known_projects == before.known_projects
    }

    /// A mutable reference to the state of a project's service.
    pub fn get_service_state_mut(&mut self, project: &str, service: &str) -> (r: Option<
        &mut ServiceState,
    >)
        requires
            old(self).wf(),
        ensures
            match r {
                Some(st) => {
                    &&& old(self).state_of(project@, service@) == Some(*st)
                    &&& exists|i: int, j: int|
                        #![trigger old(self).services.pairs()[i], old(self).services.pairs()[i].1.pairs()[j]]
                        Self::replaced_at(*old(self), *final(self), project@, service@, i, j, *final(st))
                },
                None => {
                    &&& old(self).state_of(project@, service@) is None
                    &&& *final(self) == *old(self)
                },
            },
    {
        let ghost old_outer = self.services;
        if self.get_service_state(project, service).is_none() {
            return None;
        }
        match self.services.get_mut(project) {
            Some(m) => {
                let ghost old_inner = *m;
                proof {
                    assert(old_outer@.contains_key(project@));
                    assert(old_outer@[project@] == old_inner);
                }
                if !m.contains_key(service) {
                    return None;
                }
                match m.get_mut(service) {
                    Some(st) => Some(st),
                    None => None,
                }
            },
            None => None,
        }
    }

    /// What replacing one service state through `get_service_state_mut` does
    /// to the recorded states.
    pub proof fn lemma_replaced(before: Self, after: Self, project: Seq<char>, service: Seq<char>, i: int, j: int, v: ServiceState)
        requires
            before.wf(),
            Self::replaced_at(before, after, project, service, i, j, v),
        ensures
            after.wf(),
            forall|p: Seq<char>, q: Seq<char>| #[trigger] after.state_of(p, q) == if p == project && q == service {
                Some(v)
            } else {
                before.state_of(p, q)
            },
    {
        let inner0 = before.services.pairs()[i].1;
        let inner1 = after.services.pairs()[i].1;
        crate::namemap::lemma_lookup_distinct(before.services.pairs(), i);
        assert(before.services@.contains_key(project));
        assert(before.services@[project] == inner0);
        assert(inner0.wf());
        lemma_update_entry(&before.services, &after.services, i, inner1);
        lemma_update_entry(&inner0, &inner1, j, v);
    }

    /// The services of one project.
    pub fn get_project_services(&self, project: &str) -> (r: Option<&NameMap<ServiceState>>)
        ensures
            match r {
                Some(m) => self.services@.contains_key(project@) && *m == self.services@[project@],
                None => !self.services@.contains_key(project@),
            },
    {
        self.services.get(project)
    }

    /// Records the state of a project's service, under the state's name.
    pub fn set_service_state(&mut self, project: &str, state: ServiceState)
        requires
            old(self).wf(),
        ensures
            final(self).wf(),
            old(self).names_match() ==> final(self).names_match(),
            final(self).known_projects == old(self).known_projects,
            final(self).services@.dom() == old(self).services@.dom().insert(project@),
            forall|p: Seq<char>, q: Seq<char>| #[trigger] final(self).state_of(p, q) == if p == project@ && q == state.name@ {
                Some(state)
            } else {
                old(self).state_of(p, q)
            },
    {
        let ghost s0 = *self;
        let ghost name = state.name@;
        let mut inner = match self.services.remove(project) {
            Some(m) => m,
            None => NameMap::new(),
        };
        proof {
            if s0.services@.contains_key(project@) {
                assert(inner == s0.services@[project@]);
            } else {
                lemma_empty_view(&inner);
            }
        }
        let ghost inner0 = inner@;
        let key = state.name.clone();
        inner.insert(key, state);
        self.services.insert(owned(project), inner);
        proof {
            assert forall|p: Seq<char>| #[trigger] self.services@.contains_key(p) implies self.services@[p].wf() by {
                if p != project@ {
                    assert(s0.services@.contains_key(p));
                }
            }
            assert(self.services@.dom() =~= s0.services@.dom().insert(project@));
            assert forall|p: Seq<char>, q: Seq<char>| #[trigger] self.state_of(p, q) == if p == project@ && q == name {
                Some(state)
            } else {
                s0.state_of(p, q)
            } by {
                if p == project@ {
                    assert(self.services@[p]@ == inner0.insert(name, state));
                }
            }
        }
    }

    /// Gives each named service of a project a fresh (stopped) state, keeping
    /// the states it already has.
    pub fn init_project_services(&mut self, project: &str, service_names: Vec<String>)
        requires
            old(self).wf(),
        ensures
            final(self).wf(),
            old(self).names_match() ==> final(self).names_match(),
            final(self).known_projects == old(self).known_projects,
            final(self).services@.contains_key(project@),
            forall|p: Seq<char>, q: Seq<char>| p != project@ ==> #[trigger] final(self).state_of(p, q) == old(self).state_of(p, q),
            forall|q: Seq<char>| old(self).state_of(project@, q) is Some ==> #[trigger] final(self).state_of(project@, q) == old(self).state_of(project@, q),
            forall|q: Seq<char>| old(self).state_of(project@, q) is None ==> (#[trigger] final(self).state_of(project@, q) matches Some(st) <==> service_names@.map_values(|n: String| n@).contains(q)),
            forall|q: Seq<char>| old(self).state_of(project@, q) is None && #[trigger] final(self).state_of(project@, q) is Some ==> final(self).state_of(project@, q)->0@ == fresh_state(q),
    {
        let ghost s0 = *self;
        let ghost names = service_names@.map_values(|n: String| n@);
        let mut inner = match self.services.remove(project) {
            Some(m) => m,
            None => NameMap::new(),
        };
        let ghost inner0 = inner@;
        proof {
            if s0.services@.contains_key(project@) {
                assert(inner == s0.services@[project@]);
            } else {
                lemma_empty_view(&inner);
            }
        }
        let mut i: usize = 0;
        while i < service_names.len()
            invariant
                i <= service_names.len(),
                inner.wf(),
                names == service_names@.map_values(|n: String| n@),
                forall|q: Seq<char>| #[trigger] inner0.contains_key(q) ==> inner@.contains_key(q) && inner@[q] == inner0[q],
                forall|q: Seq<char>| !inner0.contains_key(q) ==> (#[trigger] inner@.contains_key(q) <==> names.take(i as int).contains(q)),
                forall|q: Seq<char>| !inner0.contains_key(q) && #[trigger] inner@.contains_key(q) ==> inner@[q]@ == fresh_state(q),
            decreases service_names.len() - i,
        {
            let name = &service_names[i];
            let ghost q0 = name@;
            proof {
                assert(names.take(i + 1) =~= names.take(i as int).push(q0));
            }
            if !inner.contains_key(name.as_str()) {
                let st = ServiceState::new(name.clone());
                inner.insert(name.clone(), st);
            }
            proof {
                assert forall|q: Seq<char>| !inner0.contains_key(q) implies (#[trigger] inner@.contains_key(q) <==> names.take(i + 1).contains(q)) by {
                    if names.take(i as int).contains(q) {
                        let k = choose|k: int| 0 <= k < names.take(i as int).len() && #[trigger] names.take(i as int)[k] == q;
                        assert(names.take(i + 1)[k] == q);
                    }
                    if names.take(i + 1).contains(q) && q != q0 {
                        let k = choose|k: int| 0 <= k < names.take(i + 1).len() && #[trigger] names.take(i + 1)[k] == q;
                        assert(names.take(i as int)[k] == q);
                    }
                    if q == q0 {
                        assert(names.take(i + 1)[i as int] == q0);
                    }
                }
            }
            i = i + 1;
        }
        assert(names.take(service_names.len() as int) =~= names);
        let ghost inner1 = inner@;
        self.services.insert(owned(project), inner);
        proof {
            assert forall|p: Seq<char>| #[trigger] self.services@.contains_key(p) implies self.services@[p].wf() by {
                if p != project@ {
                    assert(s0.services@.contains_key(p));
                }
            }
            assert(self.services@[project@]@ == inner1);
            assert forall|q: Seq<char>| s0.state_of(project@, q) is Some implies #[trigger] self.state_of(project@, q) == s0.state_of(project@, q) by {
                assert(inner0.contains_key(q));
            }
            assert forall|q: Seq<char>| s0.state_of(project@, q) is None implies (#[trigger] self.state_of(project@, q) matches Some(st) <==> names.contains(q)) by {
                assert(!inner0.contains_key(q));
            }
            assert forall|q: Seq<char>| s0.state_of(project@, q) is None && #[trigger] self.state_of(project@, q) is Some implies self.state_of(project@, q)->0@ == fresh_state(q) by {
                assert(!inner0.contains_key(q));
            }
            if s0.names_match() {
                assert forall|p: Seq<char>, q: Seq<char>| #[trigger] self.state_of(p, q) is Some implies self.state_of(p, q)->0.name@ == q by {
                    if p == project@ {
                        if !inner0.contains_key(q) {
                            assert(self.state_of(project@, q)->0@ == fresh_state(q));
                        } else {
                            assert(s0.state_of(project@, q) is Some);
                        }
                    } else {
                        assert(s0.state_of(p, q) == self.state_of(p, q));
                    }
                }
            }
        }
    }
}


/// The view of a service's state with the given status and otherwise fresh.
pub open spec fn status_state(service: Seq<char>, status: ServiceStatus) -> ServiceStateView {
    ServiceStateView { status, ..fresh_state(service) }
}

impl AppState {
    /// `after` records a state with view `v` for the project's service and
    /// the same states as `before` for all others.
    pub open spec fn recorded(before: Self, after: Self, project: Seq<char>, service: Seq<char>, v: ServiceStateView) -> bool {
        &&& after.wf()
        &&& after.known_projects == before.known_projects
        &&& after.state_of(project, service) matches Some(st) && st@ == v
        &&& forall|p: Seq<char>, q: Seq<char>| !(p == project && q == service) ==> #[trigger] after.state_of(p, q)
            == before.state_of(p, q)
    }

    fn record(&mut self, project: &str, state: ServiceState)
        requires
            old(self).wf(),
        ensures
            Self::recorded(*old(self), *final(self), project@, state.name@, state@),
    {
        let ghost st = state;
        self.set_service_state(project, state);
        assert(self.state_of(project@, st.name@) == Some(st));
    }

    /// Records a fresh state of the project's service with the given status.
    pub fn record_status(&mut self, project: &str, service: &str, status: ServiceStatus)
        requires
            old(self).wf(),
        ensures
            Self::recorded(*old(self), *final(self), project@, service@, status_state(service@, status)),
    {
        let mut st = ServiceState::new(owned(service));
        st.status = status;
        self.record(project, st);
    }

    /// Records the project's service as running, with what is known of it.
    pub fn record_running(
        &mut self,
        project: &str,
        service: &str,
        port: Option<u16>,
        container_id: Option<String>,
        process_id: Option<u32>,
    )
        requires
            old(self).wf(),
        ensures
            Self::recorded(
                *old(self),
                *final(self),
                project@,
                service@,
                ServiceStateView {
                    status: ServiceStatus::Running,
                    port,
                    container_id: opt_view(container_id),
                    process_id,
                    ..fresh_state(service@)
                },
            ),
    {
        let mut st = ServiceState::new(owned(service));
        st.status = ServiceStatus::Running;
        st.port = port;
        st.container_id = container_id;
        st.process_id = process_id;
        self.record(project, st);
    }

    /// Marks a recorded service as stopping; a service without state is left
    /// without one.
    pub fn mark_stopping(&mut self, project: &str, service: &str)
        requires
            old(self).wf(),
        ensures
            match old(self).state_of(project@, service@) {
                Some(st) => Self::recorded(
                    *old(self),
                    *final(self),
                    project@,
                    service@,
                    ServiceStateView { status: ServiceStatus::Stopping, ..st@ },
                ),
                None => *final(self) == *old(self),
            },
    {
        let ghost s0 = *self;
        match self.get_service_state_mut(project, service) {
            Some(st) => {
                st.status = ServiceStatus::Stopping;
                let ghost v = *st;
                proof {
                    let (i, j) = choose|i: int, j: int| #![trigger s0.services.pairs()[i], s0.services.pairs()[i].1.pairs()[j]]
                        Self::replaced_at(s0, *self, project@, service@, i, j, v);
                    Self::lemma_replaced(s0, *self, project@, service@, i, j, v);
                }
            },
            None => {},
        }
    }

    /// Records the project's service as failed, with the message why.
    pub fn record_error(&mut self, project: &str, service: &str, message: String)
        requires
            old(self).wf(),
        ensures
            Self::recorded(
                *old(self),
                *final(self),
                project@,
                service@,
                ServiceStateView {
                    status: ServiceStatus::Error,
                    error_message: Some(message@),
                    ..fresh_state(service@)
                },
            ),
    {
        let mut st = ServiceState::new(owned(service));
        st.status = ServiceStatus::Error;
        st.error_message = Some(message);
        self.record(project, st);
    }
}

/// The project paths the user registered.
#[derive(Debug)]
pub struct ProjectRegistry {
    pub paths: Vec<String>,
}

/// The pieces of a path between its `/` separators (empty pieces included).
pub open spec fn slash_pieces(s: Seq<char>) -> Seq<Seq<char>>
    decreases s.len(),
{
    if s.len() == 0 {
        seq![Seq::empty()]
    } else if s.last() == '/' {
        slash_pieces(s.drop_last()).push(Seq::empty())
    } else {
        let p = slash_pieces(s.drop_last());
        p.update(p.len() - 1, p.last().push(s.last()))
    }
}

/// What a path's components come to on Unix, as std's `Path::components`
/// documents them: whether it starts at the root, whether it starts with a
/// `.` component, and its other components. Repeated separators, `.`
/// components past the start and a trailing separator are normalized away.
pub open spec fn path_key(s: Seq<char>) -> (bool, bool, Seq<Seq<char>>) {
    (
        s.len() > 0 && s[0] == '/',
        slash_pieces(s)[0] == seq!['.'],
        slash_pieces(s).filter(|p: Seq<char>| p.len() > 0 && p != seq!['.']),
    )
}

/// Two paths are the same path: they have the same components.
pub open spec fn same_path(a: Seq<char>, b: Seq<char>) -> bool {
    path_key(a) == path_key(b)
}

/// std's `Path` equality on paths held as strings. std documents that paths
/// compare by their components and how components are normalized; on Unix
/// that is `same_path`.
#[verifier::external_body]
fn same_path_str(a: &str, b: &str) -> (r: bool)
    ensures
        r == same_path(a@, b@),
{
    std::path::Path::new(a) == std::path::Path::new(b)
}

/// Some path of `s` is the same path as `x`.
pub open spec fn registered(s: Seq<Seq<char>>, x: Seq<char>) -> bool
    decreases s.len(),
{
    s.len() > 0 && (same_path(s.last(), x) || registered(s.drop_last(), x))
}

/// `s` without the paths that are the same path as `x`.
pub open spec fn without(s: Seq<Seq<char>>, x: Seq<char>) -> Seq<Seq<char>>
    decreases s.len(),
{
    if s.len() == 0 {
        Seq::empty()
    } else if same_path(s.last(), x) {
        without(s.drop_last(), x)
    } else {
        without(s.drop_last(), x).push(s.last())
    }
}

impl ProjectRegistry {
    /// The registered paths, as character sequences.
    pub open spec fn path_seq(&self) -> Seq<Seq<char>> {
        strings_view(self.paths@)
    }

    /// No paths.
    pub fn new() -> (r: Self)
        ensures
            r.path_seq().len() == 0,
    {
        ProjectRegistry { paths: Vec::new() }
    }

    /// Registers a path; false when the same path (compared by components)
    /// was already registered.
    pub fn add(&mut self, path: String) -> (added: bool)
        ensures
            added == !registered(old(self).path_seq(), path@),
            final(self).path_seq() == if added {
                old(self).path_seq().push(path@)
            } else {
                old(self).path_seq()
            },
    {
        let ghost before = self.path_seq();
        let mut i: usize = 0;
        while i < self.paths.len()
            invariant
                i <= self.paths.len(),
                before == self.path_seq(),
                !registered(before.take(i as int), path@),
            decreases self.paths.len() - i,
        {
            proof {
                assert(before.take(i + 1).drop_last() =~= before.take(i as int));
                assert(before.take(i + 1).last() == self.paths@[i as int]@);
            }
            if same_path_str(self.paths[i].as_str(), path.as_str()) {
                proof {
                    assert(registered(before.take(i + 1), path@));
                    lemma_registered_prefix(before, i + 1, path@);
                }
                return false;
            }
            i = i + 1;
        }
        assert(before.take(i as int) =~= before);
        let ghost pv = path@;
        self.paths.push(path);
        assert(self.path_seq() =~= before.push(pv));
        true
    }

    /// Unregisters every path that is the same path as `path`; false when
    /// none was registered.
    pub fn remove(&mut self, path: &str) -> (removed: bool)
        ensures
            removed == registered(old(self).path_seq(), path@),
            final(self).path_seq() == without(old(self).path_seq(), path@),
    {
        let ghost before = self.path_seq();
        let len = self.paths.len();
        let mut kept: Vec<String> = Vec::new();
        let mut i: usize = 0;
        while i < self.paths.len()
            invariant
                i <= self.paths.len(),
                len == self.paths.len(),
                before == self.path_seq(),
                strings_view(kept@) == without(before.take(i as int), path@),
                (kept.len() == i) <==> !registered(before.take(i as int), path@),
                kept.len() <= i,
            decreases self.paths.len() - i,
        {
            proof {
                assert(before.take(i + 1).drop_last() =~= before.take(i as int));
                assert(before.take(i + 1).last() == before[i as int]);
                assert(before[i as int] == self.paths@[i as int]@);
            }
            let ghost kv = strings_view(kept@);
            if !same_path_str(self.paths[i].as_str(), path) {
                kept.push(self.paths[i].clone());
                assert(strings_view(kept@) =~= kv.push(before[i as int]));
            }
            i = i + 1;
        }
        assert(before.take(len as int) =~= before);
        self.paths = kept;
        self.paths.len() != len
    }
}

/// A path registered in a prefix of `s` is registered in `s`.
proof fn lemma_registered_prefix(s: Seq<Seq<char>>, n: int, x: Seq<char>)
    requires
        0 <= n <= s.len(),
        registered(s.take(n), x),
    ensures
        registered(s, x),
    decreases s.len() - n,
{
    if n < s.len() {
        assert(s.take(n + 1).drop_last() =~= s.take(n));
        lemma_registered_prefix(s, n + 1, x);
    } else {
        assert(s.take(n) =~= s);
    }
}
} // verus!
