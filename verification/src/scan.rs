//! Discovering projects: their names, the configurations gathered for them,
//! the service states recorded when they are scanned, and their order.
use vstd::prelude::*;
use crate::config::{
    joined_path, ComposeServiceConfig, Project, ProjectConfig, ServiceConfig, ServiceState, ServiceStateView,
    ServiceStatus, fresh_state, opt_view,
};
use crate::detect::merge_compose_services;
use crate::docker::{ComposeContainer, ComposeContainerView, triple_view};
use crate::namemap::NameMap;
use crate::state::{AppState, path_key, status_state};
use crate::text::{owned, str_eq, str_starts_with_char};

verus! {

/// The last component of a path when it is a name, as std's
/// `Path::file_name` documents it on Unix: the last of the normalized
/// components (see `path_key`), none when there is none or it is `..`.
pub open spec fn file_name_of(path: Seq<char>) -> Option<Seq<char>> {
    let parts = path_key(path).2;
    if parts.len() == 0 || parts.last() == seq!['.', '.'] {
        None
    } else {
        Some(parts.last())
    }
}

/// std's `Path::file_name` on a path held as a string (`to_str` cannot fail
/// on a path made from a `&str`). std documents it as the final component
/// when that is a normal file or directory name, none when the path ends in
/// `..` or is the root or empty; components are normalized as `path_key`
/// says. The program built on this library runs on Unix only.
#[verifier::external_body]
fn path_file_name(path: &str) -> (r: Option<String>)
    ensures
        opt_view(r) == file_name_of(path@),
{
    std::path::Path::new(path).file_name().and_then(|n| n.to_str()).map(|n| n.to_owned())
}

/// The name of the project in a directory: the directory's name, or
/// `unknown` when the path has none.
pub fn project_name(path: &str) -> (r: String)
    ensures
        r@ == match file_name_of(path@) {
            Some(n) => n,
            None => "unknown"@,
        },
{
    match path_file_name(path) {
        Some(n) => n,
        None => owned("unknown"),
    }
}

/// Whether a directory is hidden: its name starts with `.`.
pub fn is_hidden_dir(path: &str) -> (r: bool)
    ensures
        r == match file_name_of(path@) {
            Some(n) => n.len() > 0 && n[0] == '.',
            None => false,
        },
{
    match path_file_name(path) {
        Some(n) => str_starts_with_char(n.as_str(), '.'),
        None => false,
    }
}

/// A project's configuration with the services found in its compose file
/// added: the configured services take precedence; without a configuration,
/// the detected one.
pub fn merge_detected(config: Option<ProjectConfig>, detected: Option<ProjectConfig>) -> (r: Option<ProjectConfig>)
    requires
        config matches Some(c) ==> c.services.wf(),
        detected matches Some(d) ==> d.services.wf(),
    ensures
        match (config, detected) {
            (Some(c), Some(d)) => r matches Some(rc) && rc.name == c.name && rc.env_file == c.env_file
                && rc.services.wf() && rc.services@ == d.services@.union_prefer_right(c.services@),
            (None, Some(d)) => r == Some(d),
            (c, None) => r == c,
        },
{
    match (config, detected) {
        (Some(mut c), Some(d)) => {
            merge_compose_services(&mut c, d.services);
            Some(c)
        },
        (None, Some(d)) => Some(d),
        (c, None) => c,
    }
}

/// A project's configuration with the services of its running compose
/// containers added (configured services take precedence); without a
/// configuration but with such services, a configuration of them alone,
/// named after the project.
pub fn attach_compose_services(
    config: Option<ProjectConfig>,
    project_name: &str,
    compose_services: NameMap<ServiceConfig>,
) -> (r: Option<ProjectConfig>)
    requires
        config matches Some(c) ==> c.services.wf(),
        compose_services.wf(),
    ensures
        compose_services.pairs().len() == 0 ==> r == config,
        compose_services.pairs().len() > 0 ==> match config {
            Some(c) => r matches Some(rc) && rc.name == c.name && rc.env_file == c.env_file
                && rc.services.wf() && rc.services@ == compose_services@.union_prefer_right(c.services@),
            None => r matches Some(rc) && rc.name@ == project_name@ && rc.env_file is None
                && rc.services == compose_services,
        },
{
    if compose_services.is_empty() {
        return config;
    }
    match config {
        Some(mut c) => {
            merge_compose_services(&mut c, compose_services);
            Some(c)
        },
        None => Some(ProjectConfig { name: owned(project_name), env_file: None, services: compose_services }),
    }
}

/// `a` comes before `b` in lexicographic order of characters (which, for
/// UTF-8 text, is the byte order `String` compares by).
pub open spec fn name_lt(a: Seq<char>, b: Seq<char>) -> bool
    decreases a.len(),
{
    if a.len() == 0 {
        b.len() > 0
    } else if b.len() == 0 {
        false
    } else if a[0] != b[0] {
        a[0] < b[0]
    } else {
        name_lt(a.drop_first(), b.drop_first())
    }
}

proof fn lemma_lt_irreflexive(a: Seq<char>)
    ensures
        !name_lt(a, a),
    decreases a.len(),
{
    if a.len() > 0 {
        lemma_lt_irreflexive(a.drop_first());
    }
}

proof fn lemma_lt_asymmetric(a: Seq<char>, b: Seq<char>)
    ensures
        name_lt(a, b) ==> !name_lt(b, a),
    decreases a.len(),
{
    if a.len() > 0 && b.len() > 0 {
        lemma_lt_asymmetric(a.drop_first(), b.drop_first());
    }
}

proof fn lemma_lt_transitive(a: Seq<char>, b: Seq<char>, c: Seq<char>)
    ensures
        name_lt(a, b) && name_lt(b, c) ==> name_lt(a, c),
    decreases a.len(),
{
    if a.len() > 0 && b.len() > 0 && c.len() > 0 {
        lemma_lt_transitive(a.drop_first(), b.drop_first(), c.drop_first());
    }
}

proof fn lemma_lt_total(a: Seq<char>, b: Seq<char>)
    ensures
        a != b ==> name_lt(a, b) || name_lt(b, a),
    decreases a.len(),
{
    if a.len() > 0 && b.len() > 0 {
        lemma_lt_total(a.drop_first(), b.drop_first());
        if a[0] == b[0] && a.drop_first() == b.drop_first() {
            assert(a =~= seq![a[0]] + a.drop_first());
            assert(b =~= seq![b[0]] + b.drop_first());
        }
    }
    if a.len() == 0 && b.len() == 0 {
        assert(a =~= b);
    }
}

/// Name order is a strict total order.
pub proof fn lemma_name_lt_order(a: Seq<char>, b: Seq<char>, c: Seq<char>)
    ensures
        !name_lt(a, a),
        name_lt(a, b) ==> !name_lt(b, a),
        name_lt(a, b) && name_lt(b, c) ==> name_lt(a, c),
        !name_lt(a, b) && !name_lt(b, c) ==> !name_lt(a, c),
        a != b ==> name_lt(a, b) || name_lt(b, a),
{
    lemma_lt_irreflexive(a);
    lemma_lt_asymmetric(a, b);
    lemma_lt_transitive(a, b, c);
    lemma_lt_total(a, b);
    lemma_lt_total(b, c);
    lemma_lt_transitive(c, b, a);
    lemma_lt_asymmetric(c, a);
    lemma_lt_irreflexive(c);
}

/// Whether `a` comes before `b` in name order.
pub fn str_lt(a: &str, b: &str) -> (r: bool)
    ensures
        r == name_lt(a@, b@),
{
    let av = crate::text::chars_of(a);
    let bv = crate::text::chars_of(b);
    let mut i: usize = 0;
    assert(av@.skip(0) =~= av@);
    assert(bv@.skip(0) =~= bv@);
    while i < av.len() && i < bv.len()
        invariant
            i <= av.len(),
            i <= bv.len(),
            name_lt(a@, b@) == name_lt(av@.skip(i as int), bv@.skip(i as int)),
            av@ == a@,
            bv@ == b@,
        decreases av.len() - i,
    {
        proof {
            assert(av@.skip(i as int)[0] == av@[i as int]);
            assert(bv@.skip(i as int)[0] == bv@[i as int]);
            assert(av@.skip(i as int).drop_first() =~= av@.skip(i + 1));
            assert(bv@.skip(i as int).drop_first() =~= bv@.skip(i + 1));
        }
        if av[i] != bv[i] {
            return av[i] < bv[i];
        }
        i = i + 1;
    }
    bv.len() > i
}

/// Projects ordered by name: each name is not after the next.
pub open spec fn sorted_by_name(ps: Seq<Project>) -> bool {
    forall|i: int, j: int| 0 <= i < j < ps.len() ==> !name_lt(#[trigger] ps[j].name@, #[trigger] ps[i].name@)
}

/// Whether a project has the given name.
pub open spec fn named(x: Seq<char>) -> spec_fn(Project) -> bool {
    |p: Project| p.name@ == x
}

/// Inserting a project before every project whose name comes after its own
/// appends it to the projects of its name and leaves those of other names.
proof fn lemma_insert_named(before: Seq<Project>, pos: int, p: Project, x: Seq<char>)
    requires
        0 <= pos <= before.len(),
        forall|j: int| pos <= j < before.len() ==> name_lt(p.name@, #[trigger] before[j].name@),
    ensures
        before.insert(pos, p).filter(named(x)) == if p.name@ == x {
            before.filter(named(x)).push(p)
        } else {
            before.filter(named(x))
        },
{
    let a = before.take(pos);
    let b = before.skip(pos);
    let one = Seq::<Project>::empty().push(p);
    assert(before =~= a + b);
    assert(before.insert(pos, p) =~= (a + one) + b);
    Seq::filter_distributes_over_add(a + one, b, named(x));
    Seq::filter_distributes_over_add(a, one, named(x));
    Seq::filter_distributes_over_add(a, b, named(x));
    Seq::<Project>::empty().lemma_filter_push(p, named(x));
    reveal(Seq::filter);
    assert(Seq::<Project>::empty().filter(named(x)) =~= Seq::<Project>::empty());
    if p.name@ == x {
        assert forall|j: int| 0 <= j < b.len() implies !named(x)(#[trigger] b[j]) by {
            assert(b[j] == before[pos + j]);
            lemma_name_lt_order(p.name@, b[j].name@, p.name@);
        }
        assert(b.all(|y: Project| !named(x)(y)));
        b.lemma_all_neg_filter_empty(named(x));
        assert(b.filter(named(x)) =~= Seq::<Project>::empty());
        assert(a.filter(named(x)) + one.filter(named(x)) =~= a.filter(named(x)).push(p));
    } else {
        assert(a.filter(named(x)) + one.filter(named(x)) =~= a.filter(named(x)));
    }
}

/// The projects ordered by name; projects of equal name keep their order.
pub fn sort_projects(projects: Vec<Project>) -> (r: Vec<Project>)
    ensures
        sorted_by_name(r@),
        r@.to_multiset() == projects@.to_multiset(),
        r@.len() == projects@.len(),
        forall|x: Seq<char>| #[trigger] r@.filter(named(x)) == projects@.filter(named(x)),
{
    let mut input = projects;
    let ghost all = input@;
    let mut out: Vec<Project> = Vec::new();
    let n = input.len();
    let mut k: usize = 0;
    assert(all.skip(0) =~= all);
    assert(all.take(0) =~= Seq::<Project>::empty());
    proof {
        reveal(Seq::filter);
    }
    while k < n
        invariant
            n == all.len(),
            k <= n,
            input@ == all.skip(k as int),
            sorted_by_name(out@),
            out@.to_multiset() == all.take(k as int).to_multiset(),
            out@.len() == k,
            forall|x: Seq<char>| #[trigger] out@.filter(named(x)) == all.take(k as int).filter(named(x)),
        decreases n - k,
    {
        let p = input.remove(0);
        proof {
            assert(p == all[k as int]);
            assert(input@ =~= all.skip(k + 1));
            assert(all.take(k + 1) =~= all.take(k as int).push(all[k as int]));
        }
        let mut pos: usize = 0;
        while pos < out.len() && !str_lt(p.name.as_str(), out[pos].name.as_str())
            invariant
                pos <= out.len(),
                forall|j: int| 0 <= j < pos ==> !name_lt(p.name@, #[trigger] out@[j].name@),
            decreases out.len() - pos,
        {
            pos = pos + 1;
        }
        let ghost before = out@;
        proof {
            assert forall|j: int| pos <= j < before.len() implies name_lt(p.name@, #[trigger] before[j].name@) by {
                assert(name_lt(p.name@, before[pos as int].name@));
                if j > pos {
                    assert(!name_lt(before[j].name@, before[pos as int].name@));
                    lemma_name_lt_order(p.name@, before[pos as int].name@, before[j].name@);
                    lemma_name_lt_order(before[j].name@, before[pos as int].name@, p.name@);
                    lemma_name_lt_order(before[pos as int].name@, before[j].name@, p.name@);
                    if !name_lt(p.name@, before[j].name@) {
                        lemma_name_lt_order(before[pos as int].name@, before[j].name@, before[j].name@);
                        lemma_name_lt_order(p.name@, before[pos as int].name@, before[j].name@);
                    }
                }
            }
        }
        out.insert(pos, p);
        proof {
            assert(out@ == before.insert(pos as int, p));
            assert forall|x: Seq<char>| #[trigger] out@.filter(named(x)) == all.take(k + 1).filter(named(x)) by {
                lemma_insert_named(before, pos as int, p, x);
                all.take(k as int).lemma_filter_push(p, named(x));
            }
            vstd::seq_lib::to_multiset_insert(before, pos as int, p);
            vstd::seq_lib::to_multiset_build(all.take(k as int), p);
            assert(all.take(k + 1) == all.take(k as int).push(p));
            assert forall|i: int, j: int| 0 <= i < j < out@.len() implies !name_lt(#[trigger] out@[j].name@, #[trigger] out@[i].name@) by {
                if i < pos && j == pos {
                    assert(!name_lt(p.name@, before[i].name@));
                    lemma_name_lt_order(p.name@, before[i].name@, p.name@);
                } else if i == pos && j > pos {
                    assert(out@[j] == before[j - 1]);
                    assert(name_lt(p.name@, before[j - 1].name@));
                    lemma_name_lt_order(p.name@, before[j - 1].name@, p.name@);
                } else if i < pos && j > pos {
                    assert(out@[i] == before[i] && out@[j] == before[j - 1]);
                } else if j < pos {
                    assert(out@[i] == before[i] && out@[j] == before[j]);
                } else {
                    assert(out@[i] == before[i - 1] && out@[j] == before[j - 1]);
                }
            }
        }
        k = k + 1;
    }
    assert(all.take(n as int) =~= all);
    out
}


/// The id of the last listed container of this tool that runs the project's service.
pub open spec fn claimed_by(envibe: Seq<(Seq<char>, Seq<char>, Seq<char>)>, project: Seq<char>, service: Seq<char>) -> Option<
    Seq<char>,
>
    decreases envibe.len(),
{
    if envibe.len() == 0 {
        None
    } else if envibe.last().1 == project && envibe.last().2 == service {
        Some(envibe.last().0)
    } else {
        claimed_by(envibe.drop_last(), project, service)
    }
}

/// Some running compose container of the project runs the service.
pub open spec fn compose_runs(compose: Seq<ComposeContainerView>, project: Seq<char>, service: Seq<char>) -> bool {
    exists|i: int| 0 <= i < compose.len() && #[trigger] compose[i].project == project && compose[i].service == service
}

/// A running service's state with what is known of it.
pub open spec fn running_state(service: Seq<char>, port: Option<u16>, container_id: Option<Seq<char>>) -> ServiceStateView {
    ServiceStateView { status: ServiceStatus::Running, port, container_id, ..fresh_state(service) }
}

/// The state a scan records for a service of a project (none: the recorded
/// state is kept). A service that a container of this tool runs is running
/// in that container (the last one listed); otherwise a compose service whose
/// container runs is running on its host port; other container services are
/// stopped; processes and agents keep their state.
pub open spec fn scanned_state(
    services: NameMap<ServiceConfig>,
    compose: Seq<ComposeContainerView>,
    envibe: Seq<(Seq<char>, Seq<char>, Seq<char>)>,
    project: Seq<char>,
    q: Seq<char>,
) -> Option<ServiceStateView> {
    match services.lookup(q) {
        None => None,
        Some(c) => match claimed_by(envibe, project, q) {
            Some(id) => Some(running_state(q, None, Some(id))),
            None => match c {
                ServiceConfig::Compose(cc) => if compose_runs(compose, project, q) {
                    Some(running_state(q, cc.host_port, Some(cc.container_id@)))
                } else {
                    Some(status_state(q, ServiceStatus::Stopped))
                },
                ServiceConfig::Docker(_) => Some(status_state(q, ServiceStatus::Stopped)),
                _ => None,
            },
        },
    }
}

/// The compose containers whose logs a scan follows: (container id, service)
/// for each compose service whose container runs, in configuration order.
pub open spec fn compose_streams(
    pairs: Seq<(Seq<char>, ServiceConfig)>,
    compose: Seq<ComposeContainerView>,
    project: Seq<char>,
) -> Seq<(Seq<char>, Seq<char>)>
    decreases pairs.len(),
{
    if pairs.len() == 0 {
        Seq::empty()
    } else {
        let rest = compose_streams(pairs.drop_last(), compose, project);
        match pairs.last().1 {
            ServiceConfig::Compose(cc) => if compose_runs(compose, project, pairs.last().0) {
                rest.push((cc.container_id@, pairs.last().0))
            } else {
                rest
            },
            _ => rest,
        }
    }
}

/// The containers of this tool whose logs a scan follows: (container id,
/// service) for each listed container of the project's configured services.
pub open spec fn envibe_streams(
    envibe: Seq<(Seq<char>, Seq<char>, Seq<char>)>,
    project: Seq<char>,
    services: NameMap<ServiceConfig>,
) -> Seq<(Seq<char>, Seq<char>)>
    decreases envibe.len(),
{
    if envibe.len() == 0 {
        Seq::empty()
    } else {
        let rest = envibe_streams(envibe.drop_last(), project, services);
        let e = envibe.last();
        if e.1 == project && services.has_key(e.2) {
            rest.push((e.0, e.2))
        } else {
            rest
        }
    }
}

/// `a` records `v` for the project's service, or (for none) what `base` records.
pub open spec fn holds_state(a: AppState, base: AppState, project: Seq<char>, q: Seq<char>, v: Option<ServiceStateView>) -> bool {
    match v {
        Some(v) => a.state_of(project, q) matches Some(st) && st@ == v,
        None => a.state_of(project, q) == base.state_of(project, q),
    }
}

spec fn phase1(s: Seq<(Seq<char>, ServiceConfig)>, q: Seq<char>) -> Option<ServiceStateView> {
    match crate::namemap::seq_lookup(s, q) {
        Some(ServiceConfig::Docker(_)) => Some(status_state(q, ServiceStatus::Stopped)),
        Some(ServiceConfig::Compose(_)) => Some(status_state(q, ServiceStatus::Stopped)),
        _ => None,
    }
}

spec fn phase2(
    prefix: Seq<(Seq<char>, ServiceConfig)>,
    full: Seq<(Seq<char>, ServiceConfig)>,
    compose: Seq<ComposeContainerView>,
    project: Seq<char>,
    q: Seq<char>,
) -> Option<ServiceStateView> {
    match crate::namemap::seq_lookup(prefix, q) {
        Some(ServiceConfig::Compose(cc)) if compose_runs(compose, project, q) => Some(
            running_state(q, cc.host_port, Some(cc.container_id@)),
        ),
        _ => phase1(full, q),
    }
}

spec fn phase3(
    envibe: Seq<(Seq<char>, Seq<char>, Seq<char>)>,
    services: NameMap<ServiceConfig>,
    compose: Seq<ComposeContainerView>,
    project: Seq<char>,
    q: Seq<char>,
) -> Option<ServiceStateView> {
    if services.has_key(q) && claimed_by(envibe, project, q) is Some {
        Some(running_state(q, None, claimed_by(envibe, project, q)))
    } else {
        phase2(services.pairs(), services.pairs(), compose, project, q)
    }
}

proof fn lemma_take_lookup(pairs: Seq<(Seq<char>, ServiceConfig)>, i: int, q: Seq<char>)
    requires
        crate::namemap::keys_distinct(pairs),
        0 <= i < pairs.len(),
    ensures
        crate::namemap::seq_lookup(pairs.take(i + 1), q) == if q == pairs[i].0 {
            Some(pairs[i].1)
        } else {
            crate::namemap::seq_lookup(pairs.take(i), q)
        },
{
    let t = pairs.take(i);
    assert(pairs.take(i + 1) =~= t.push((pairs[i].0, pairs[i].1)));
    assert(!crate::namemap::seq_has_key(t, pairs[i].0)) by {
        if crate::namemap::seq_has_key(t, pairs[i].0) {
            let j = choose|j: int| 0 <= j < t.len() && #[trigger] t[j].0 == pairs[i].0;
            assert(pairs[j].0 == pairs[i].0);
        }
    }
    crate::namemap::lemma_lookup_push(t, pairs[i].0, pairs[i].1, q);
}

fn any_compose_runs(compose: &Vec<ComposeContainer>, project: &str, service: &str) -> (r: bool)
    ensures
        r == compose_runs(compose@.map_values(|c: ComposeContainer| c@), project@, service@),
{
    let ghost cv = compose@.map_values(|c: ComposeContainer| c@);
    let mut i: usize = 0;
    while i < compose.len()
        invariant
            i <= compose.len(),
            cv == compose@.map_values(|c: ComposeContainer| c@),
            forall|j: int| 0 <= j < i ==> !(#[trigger] cv[j].project == project@ && cv[j].service == service@),
        decreases compose.len() - i,
    {
        if str_eq(compose[i].project.as_str(), project) && str_eq(compose[i].service.as_str(), service) {
            assert(cv[i as int].project == project@ && cv[i as int].service == service@);
            return true;
        }
        i = i + 1;
    }
    false
}


/// Brings a scanned project's recorded service states in line with what runs:
/// container services are first reset to stopped, then compose services whose
/// container runs and services a container of this tool runs are recorded as
/// running. Returns the (container id, service) pairs whose logs are to be
/// followed: the running compose services, then this tool's containers.
pub fn reconcile_scanned_states(
    app_state: &mut AppState,
    project: &str,
    config: &ProjectConfig,
    compose: &Vec<ComposeContainer>,
    envibe: &Vec<(String, String, String)>,
) -> (streams: Vec<(String, String)>)
    requires
        old(app_state).wf(),
        config.services.wf(),
    ensures
        final(app_state).wf(),
        final(app_state).known_projects == old(app_state).known_projects,
        forall|q: Seq<char>| #![trigger final(app_state).state_of(project@, q)] holds_state(
            *final(app_state),
            *old(app_state),
            project@,
            q,
            scanned_state(
                config.services,
                compose@.map_values(|c: ComposeContainer| c@),
                envibe@.map_values(|t: (String, String, String)| triple_view(t)),
                project@,
                q,
            ),
        ),
        forall|p: Seq<char>, q: Seq<char>| p != project@ ==> #[trigger] final(app_state).state_of(p, q) == old(
            app_state,
        ).state_of(p, q),
        streams@.map_values(|e: (String, String)| (e.0@, e.1@)) == compose_streams(
            config.services.pairs(),
            compose@.map_values(|c: ComposeContainer| c@),
            project@,
        ) + envibe_streams(envibe@.map_values(|t: (String, String, String)| triple_view(t)), project@, config.services),
{
    let ghost s0 = *app_state;
    let ghost pairs = config.services.pairs();
    let ghost cv = compose@.map_values(|c: ComposeContainer| c@);
    let ghost ev = envibe@.map_values(|t: (String, String, String)| triple_view(t));
    let n = config.services.len();
    let mut i: usize = 0;
    assert(pairs.take(0) =~= Seq::<(Seq<char>, ServiceConfig)>::empty());
    while i < n
        invariant
            n == pairs.len(),
            i <= n,
            pairs == config.services.pairs(),
            crate::namemap::keys_distinct(pairs),
            app_state.wf(),
            app_state.known_projects == s0.known_projects,
            forall|q: Seq<char>| #[trigger] holds_state(*app_state, s0, project@, q, phase1(pairs.take(i as int), q)),
            forall|p: Seq<char>, q: Seq<char>| p != project@ ==> #[trigger] app_state.state_of(p, q) == s0.state_of(p, q),
        decreases n - i,
    {
        let ghost a0 = *app_state;
        let name = config.services.key_at(i);
        let is_container = match config.services.value_at(i) {
            ServiceConfig::Docker(_) => true,
            ServiceConfig::Compose(_) => true,
            _ => false,
        };
        if is_container {
            app_state.record_status(project, name.as_str(), ServiceStatus::Stopped);
        }
        proof {
            assert forall|q: Seq<char>| #[trigger] holds_state(*app_state, s0, project@, q, phase1(pairs.take(i + 1), q)) by {
                lemma_take_lookup(pairs, i as int, q);
                if q != name@ {
                    assert(holds_state(a0, s0, project@, q, phase1(pairs.take(i as int), q)));
                } else {
                    assert(crate::namemap::seq_lookup(pairs.take(i as int), q) is None) by {
                        crate::namemap::lemma_lookup_none(pairs.take(i as int), q);
                        if crate::namemap::seq_has_key(pairs.take(i as int), q) {
                            let j = choose|j: int| 0 <= j < pairs.take(i as int).len() && #[trigger] pairs.take(i as int)[j].0 == q;
                            assert(pairs[j].0 == pairs[i as int].0);
                        }
                    }
                    assert(holds_state(a0, s0, project@, q, phase1(pairs.take(i as int), q)));
                }
            }
        }
        i = i + 1;
    }
    assert(pairs.take(n as int) =~= pairs);
    let ghost s1 = *app_state;
    let mut streams: Vec<(String, String)> = Vec::new();
    let mut i: usize = 0;
    assert(pairs.take(0) =~= Seq::<(Seq<char>, ServiceConfig)>::empty());
    while i < n
        invariant
            n == pairs.len(),
            i <= n,
            pairs == config.services.pairs(),
            crate::namemap::keys_distinct(pairs),
            cv == compose@.map_values(|c: ComposeContainer| c@),
            app_state.wf(),
            app_state.known_projects == s0.known_projects,
            forall|q: Seq<char>| #[trigger] holds_state(*app_state, s0, project@, q, phase2(pairs.take(i as int), pairs, cv, project@, q)),
            forall|p: Seq<char>, q: Seq<char>| p != project@ ==> #[trigger] app_state.state_of(p, q) == s0.state_of(p, q),
            streams@.map_values(|e: (String, String)| (e.0@, e.1@)) == compose_streams(pairs.take(i as int), cv, project@),
        decreases n - i,
    {
        let ghost a0 = *app_state;
        let ghost st0 = streams@.map_values(|e: (String, String)| (e.0@, e.1@));
        let name = config.services.key_at(i);
        proof {
            assert(pairs.take(i + 1).drop_last() =~= pairs.take(i as int));
            assert(pairs.take(i + 1).last() == pairs[i as int]);
        }
        match config.services.value_at(i) {
            ServiceConfig::Compose(cc) => {
                if any_compose_runs(compose, project, name.as_str()) {
                    app_state.record_running(project, name.as_str(), cc.host_port, Some(cc.container_id.clone()), None);
                    streams.push((cc.container_id.clone(), name.clone()));
                    assert(streams@.map_values(|e: (String, String)| (e.0@, e.1@)) =~= st0.push((cc.container_id@, name@)));
                }
            },
            _ => {},
        }
        proof {
            assert forall|q: Seq<char>| #[trigger] holds_state(*app_state, s0, project@, q, phase2(pairs.take(i + 1), pairs, cv, project@, q)) by {
                lemma_take_lookup(pairs, i as int, q);
                assert(holds_state(a0, s0, project@, q, phase2(pairs.take(i as int), pairs, cv, project@, q)));
                if q == name@ {
                    assert(crate::namemap::seq_lookup(pairs.take(i as int), q) is None) by {
                        crate::namemap::lemma_lookup_none(pairs.take(i as int), q);
                        if crate::namemap::seq_has_key(pairs.take(i as int), q) {
                            let j = choose|j: int| 0 <= j < pairs.take(i as int).len() && #[trigger] pairs.take(i as int)[j].0 == q;
                            assert(pairs[j].0 == pairs[i as int].0);
                        }
                    }
                }
            }
        }
        i = i + 1;
    }
    assert(pairs.take(n as int) =~= pairs);
    let m = envibe.len();
    let mut j: usize = 0;
    let ghost sc = streams@.map_values(|e: (String, String)| (e.0@, e.1@));
    assert(ev.take(0) =~= Seq::<(Seq<char>, Seq<char>, Seq<char>)>::empty());
    while j < m
        invariant
            m == ev.len(),
            j <= m,
            ev == envibe@.map_values(|t: (String, String, String)| triple_view(t)),
            pairs == config.services.pairs(),
            config.services.wf(),
            app_state.wf(),
            app_state.known_projects == s0.known_projects,
            forall|q: Seq<char>| #[trigger] holds_state(*app_state, s0, project@, q, phase3(ev.take(j as int), config.services, cv, project@, q)),
            forall|p: Seq<char>, q: Seq<char>| p != project@ ==> #[trigger] app_state.state_of(p, q) == s0.state_of(p, q),
            streams@.map_values(|e: (String, String)| (e.0@, e.1@)) == sc + envibe_streams(ev.take(j as int), project@, config.services),
        decreases m - j,
    {
        let ghost a0 = *app_state;
        let ghost st0 = streams@.map_values(|e: (String, String)| (e.0@, e.1@));
        proof {
            assert(ev.take(j + 1).drop_last() =~= ev.take(j as int));
            assert(ev.take(j + 1).last() == ev[j as int]);
        }
        let (id, p, sv) = (&envibe[j].0, &envibe[j].1, &envibe[j].2);
        if str_eq(p.as_str(), project) && config.services.contains_key(sv.as_str()) {
            app_state.record_running(project, sv.as_str(), None, Some(id.clone()), None);
            streams.push((id.clone(), sv.clone()));
            assert(streams@.map_values(|e: (String, String)| (e.0@, e.1@)) =~= st0.push((id@, sv@)));
        }
        proof {
            assert forall|q: Seq<char>| #[trigger] holds_state(*app_state, s0, project@, q, phase3(ev.take(j + 1), config.services, cv, project@, q)) by {
                assert(holds_state(a0, s0, project@, q, phase3(ev.take(j as int), config.services, cv, project@, q)));
                crate::namemap::lemma_lookup_none(config.services.pairs(), q);
            }
            assert(sc + envibe_streams(ev.take(j + 1), project@, config.services) =~= if p@ == project@ && config.services.has_key(sv@) {
                (sc + envibe_streams(ev.take(j as int), project@, config.services)).push((id@, sv@))
            } else {
                sc + envibe_streams(ev.take(j as int), project@, config.services)
            });
        }
        j = j + 1;
    }
    proof {
        assert(ev.take(m as int) =~= ev);
        assert forall|q: Seq<char>| #![trigger app_state.state_of(project@, q)] holds_state(
            *app_state,
            s0,
            project@,
            q,
            scanned_state(config.services, cv, ev, project@, q),
        ) by {
            assert(holds_state(*app_state, s0, project@, q, phase3(ev, config.services, cv, project@, q)));
            crate::namemap::lemma_lookup_none(config.services.pairs(), q);
        }
    }
    streams
}


/// The names of a configuration's services, in order.
pub fn service_names(config: &ProjectConfig) -> (r: Vec<String>)
    ensures
        r@.map_values(|n: String| n@) == config.services.key_seq(),
{
    let mut r: Vec<String> = Vec::new();
    let mut i: usize = 0;
    while i < config.services.len()
        invariant
            i <= config.services.pairs().len(),
            r@.map_values(|n: String| n@) == config.services.key_seq().take(i as int),
        decreases config.services.pairs().len() - i,
    {
        let ghost before = r@.map_values(|n: String| n@);
        let k = config.services.key_at(i).clone();
        r.push(k);
        proof {
            assert(r@.map_values(|n: String| n@) =~= before.push(config.services.key_seq()[i as int]));
            assert(config.services.key_seq().take(i + 1) =~= config.services.key_seq().take(i as int).push(
                config.services.key_seq()[i as int],
            ));
        }
        i = i + 1;
    }
    assert(config.services.key_seq().take(config.services.pairs().len() as int) =~= config.services.key_seq());
    r
}

/// The state recording a compose service's container as running.
pub open spec fn compose_running_state(services: NameMap<ServiceConfig>, q: Seq<char>) -> Option<ServiceStateView> {
    match services.lookup(q) {
        Some(ServiceConfig::Compose(cc)) => Some(running_state(q, cc.host_port, Some(cc.container_id@))),
        _ => None,
    }
}

spec fn compose_prefix_state(prefix: Seq<(Seq<char>, ServiceConfig)>, q: Seq<char>) -> Option<ServiceStateView> {
    match crate::namemap::seq_lookup(prefix, q) {
        Some(ServiceConfig::Compose(cc)) => Some(running_state(q, cc.host_port, Some(cc.container_id@))),
        _ => None,
    }
}

/// Records every compose service of a configuration as running in its
/// container, on its host port (the terminal interface treats compose
/// services as already running).
pub fn mark_compose_running(app_state: &mut AppState, project: &str, config: &ProjectConfig)
    requires
        old(app_state).wf(),
        config.services.wf(),
    ensures
        final(app_state).wf(),
        final(app_state).known_projects == old(app_state).known_projects,
        forall|q: Seq<char>| #![trigger final(app_state).state_of(project@, q)] holds_state(
            *final(app_state),
            *old(app_state),
            project@,
            q,
            compose_running_state(config.services, q),
        ),
        forall|p: Seq<char>, q: Seq<char>| p != project@ ==> #[trigger] final(app_state).state_of(p, q) == old(
            app_state,
        ).state_of(p, q),
{
    let ghost s0 = *app_state;
    let ghost pairs = config.services.pairs();
    let n = config.services.len();
    let mut i: usize = 0;
    assert(pairs.take(0) =~= Seq::<(Seq<char>, ServiceConfig)>::empty());
    while i < n
        invariant
            n == pairs.len(),
            i <= n,
            pairs == config.services.pairs(),
            crate::namemap::keys_distinct(pairs),
            app_state.wf(),
            app_state.known_projects == s0.known_projects,
            forall|q: Seq<char>| #[trigger] holds_state(*app_state, s0, project@, q, compose_prefix_state(pairs.take(i as int), q)),
            forall|p: Seq<char>, q: Seq<char>| p != project@ ==> #[trigger] app_state.state_of(p, q) == s0.state_of(p, q),
        decreases n - i,
    {
        let ghost a0 = *app_state;
        let name = config.services.key_at(i);
        match config.services.value_at(i) {
            ServiceConfig::Compose(cc) => {
                app_state.record_running(project, name.as_str(), cc.host_port, Some(cc.container_id.clone()), None);
            },
            _ => {},
        }
        proof {
            assert forall|q: Seq<char>| #[trigger] holds_state(*app_state, s0, project@, q, compose_prefix_state(pairs.take(i + 1), q)) by {
                lemma_take_lookup(pairs, i as int, q);
                assert(holds_state(a0, s0, project@, q, compose_prefix_state(pairs.take(i as int), q)));
                if q == name@ {
                    assert(crate::namemap::seq_lookup(pairs.take(i as int), q) is None) by {
                        crate::namemap::lemma_lookup_none(pairs.take(i as int), q);
                        if crate::namemap::seq_has_key(pairs.take(i as int), q) {
                            let j = choose|j: int| 0 <= j < pairs.take(i as int).len() && #[trigger] pairs.take(i as int)[j].0 == q;
                            assert(pairs[j].0 == pairs[i as int].0);
                        }
                    }
                }
            }
        }
        i = i + 1;
    }
    proof {
        assert(pairs.take(n as int) =~= pairs);
        assert forall|q: Seq<char>| #![trigger app_state.state_of(project@, q)] holds_state(
            *app_state,
            s0,
            project@,
            q,
            compose_running_state(config.services, q),
        ) by {
            assert(holds_state(*app_state, s0, project@, q, compose_prefix_state(pairs, q)));
        }
    }
}


/// The compose files looked for in a project directory, in order of preference.
pub open spec fn compose_file_names(project_path: Seq<char>) -> Seq<Seq<char>> {
    seq![joined_path(project_path, "docker-compose.yml"@), joined_path(project_path, "docker-compose.yaml"@)]
}

/// The configuration files looked for in a project directory, in order of preference.
pub open spec fn config_file_names(project_path: Seq<char>) -> Seq<Seq<char>> {
    seq![joined_path(project_path, ".envibe.yaml"@), joined_path(project_path, ".envibe.yml"@)]
}

/// The first of the candidate paths that `is_present` reports present.
pub fn first_existing<F: Fn(&String) -> bool>(candidates: &Vec<String>, is_present: &F) -> (r: Option<usize>)
    requires
        forall|x: &String| call_requires(*is_present, (x,)),
    ensures
        match r {
            Some(i) => i < candidates.len() && call_ensures(*is_present, (&candidates@[i as int],), true)
                && forall|j: int| 0 <= j < i ==> call_ensures(*is_present, (&candidates@[j],), false),
            None => forall|j: int| 0 <= j < candidates.len() ==> call_ensures(*is_present, (&candidates@[j],), false),
        },
{
    let mut i: usize = 0;
    while i < candidates.len()
        invariant
            i <= candidates.len(),
            forall|x: &String| call_requires(*is_present, (x,)),
            forall|j: int| 0 <= j < i ==> call_ensures(*is_present, (&candidates@[j],), false),
        decreases candidates.len() - i,
    {
        if is_present(&candidates[i]) {
            return Some(i);
        }
        i = i + 1;
    }
    None
}

fn two_paths(project_path: &str, a: &str, b: &str) -> (r: Vec<String>)
    ensures
        r@.map_values(|x: String| x@) == seq![joined_path(project_path@, a@), joined_path(project_path@, b@)],
{
    let mut r: Vec<String> = Vec::new();
    r.push(crate::config::path_join(project_path, a));
    r.push(crate::config::path_join(project_path, b));
    assert(r@.map_values(|x: String| x@) =~= seq![joined_path(project_path@, a@), joined_path(project_path@, b@)]);
    r
}

/// The compose file of a project directory: `docker-compose.yml`, else
/// `docker-compose.yaml`, as far as `is_present` reports them present.
pub fn compose_file_path<F: Fn(&String) -> bool>(project_path: &str, is_present: &F) -> (r: Option<String>)
    requires
        forall|x: &String| call_requires(*is_present, (x,)),
    ensures
        ({
            let names = compose_file_names(project_path@);
            match r {
                Some(f) => (f@ == names[0] && exists|x: &String| x@ == names[0] && call_ensures(*is_present, (x,), true))
                    || (f@ == names[1] && (exists|x: &String| x@ == names[0] && call_ensures(*is_present, (x,), false))
                        && exists|x: &String| x@ == names[1] && call_ensures(*is_present, (x,), true)),
                None => (exists|x: &String| x@ == names[0] && call_ensures(*is_present, (x,), false))
                    && exists|x: &String| x@ == names[1] && call_ensures(*is_present, (x,), false),
            }
        }),
{
    proof {
        reveal_strlit("docker-compose.yml");
        reveal_strlit("docker-compose.yaml");
    }
    let c = two_paths(project_path, "docker-compose.yml", "docker-compose.yaml");
    let ghost cv = c@.map_values(|x: String| x@);
    assert(cv.len() == 2);
    assert(c@.len() == 2);
    assert(cv[0] == c@[0]@ && cv[1] == c@[1]@);
    match first_existing(&c, is_present) {
        Some(i) => {
            assert(call_ensures(*is_present, (&c@[0],), i == 0));
            Some(c[i].clone())
        },
        None => {
            assert(call_ensures(*is_present, (&c@[0],), false));
            assert(call_ensures(*is_present, (&c@[1],), false));
            None
        },
    }
}

/// Whether a project directory has a compose file, as `is_present` reports.
pub fn docker_compose_exists<F: Fn(&String) -> bool>(project_path: &str, is_present: &F) -> (r: bool)
    requires
        forall|x: &String| call_requires(*is_present, (x,)),
    ensures
        ({
            let names = compose_file_names(project_path@);
            &&& r ==> (exists|x: &String| x@ == names[0] && call_ensures(*is_present, (x,), true)) || (exists|
                x: &String,
            | x@ == names[1] && call_ensures(*is_present, (x,), true))
            &&& !r ==> (exists|x: &String| x@ == names[0] && call_ensures(*is_present, (x,), false)) && (exists|
                x: &String,
            | x@ == names[1] && call_ensures(*is_present, (x,), false))
        }),
{
    let f = compose_file_path(project_path, is_present);
    f.is_some()
}

/// The configuration file of a project directory: `.envibe.yaml`, else
/// `.envibe.yml`, as far as `is_present` reports them present.
pub fn get_config_path<F: Fn(&String) -> bool>(project_path: &str, is_present: &F) -> (r: Option<String>)
    requires
        forall|x: &String| call_requires(*is_present, (x,)),
    ensures
        ({
            let names = config_file_names(project_path@);
            match r {
                Some(f) => (f@ == names[0] && exists|x: &String| x@ == names[0] && call_ensures(*is_present, (x,), true))
                    || (f@ == names[1] && (exists|x: &String| x@ == names[0] && call_ensures(*is_present, (x,), false))
                        && exists|x: &String| x@ == names[1] && call_ensures(*is_present, (x,), true)),
                None => (exists|x: &String| x@ == names[0] && call_ensures(*is_present, (x,), false))
                    && exists|x: &String| x@ == names[1] && call_ensures(*is_present, (x,), false),
            }
        }),
{
    proof {
        reveal_strlit(".envibe.yaml");
        reveal_strlit(".envibe.yml");
    }
    let c = two_paths(project_path, ".envibe.yaml", ".envibe.yml");
    let ghost cv = c@.map_values(|x: String| x@);
    assert(cv.len() == 2);
    assert(c@.len() == 2);
    assert(cv[0] == c@[0]@ && cv[1] == c@[1]@);
    match first_existing(&c, is_present) {
        Some(i) => {
            assert(call_ensures(*is_present, (&c@[0],), i == 0));
            Some(c[i].clone())
        },
        None => {
            assert(call_ensures(*is_present, (&c@[0],), false));
            assert(call_ensures(*is_present, (&c@[1],), false));
            None
        },
    }
}


/// Whether a project directory has a configuration file, as `is_present` reports.
pub fn config_exists<F: Fn(&String) -> bool>(project_path: &str, is_present: &F) -> (r: bool)
    requires
        forall|x: &String| call_requires(*is_present, (x,)),
    ensures
        ({
            let names = config_file_names(project_path@);
            &&& r ==> (exists|x: &String| x@ == names[0] && call_ensures(*is_present, (x,), true)) || (exists|
                x: &String,
            | x@ == names[1] && call_ensures(*is_present, (x,), true))
            &&& !r ==> (exists|x: &String| x@ == names[0] && call_ensures(*is_present, (x,), false)) && (exists|
                x: &String,
            | x@ == names[1] && call_ensures(*is_present, (x,), false))
        }),
{
    get_config_path(project_path, is_present).is_some()
}

/// The error for a configuration file that cannot be read.
pub fn config_read_error(reason: &str) -> (r: crate::error::EnvibeError)
    ensures
        r matches crate::error::EnvibeError::Config(m) && m@ == "Failed to read config file: "@ + reason@,
{
    crate::error::EnvibeError::Config(crate::text::concat2("Failed to read config file: ", reason))
}

} // verus!
