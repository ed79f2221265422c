//! What the HTTP and WebSocket server reports and decides about projects and services.
use vstd::prelude::*;
use crate::config::{
    joined_path, path_join, ComposeServiceConfig, DockerServiceConfig, Project, ProjectConfig, ServiceConfig,
    ServiceConfigView, ServiceState, ServiceStateView, ServiceStatus, clone_env, clone_opt_string, clone_strings,
    env_view, opt_view, services_view,
};
use crate::error::EnvibeError;
use crate::namemap::{NameMap, lemma_empty_view};
use crate::docker::triple_view;
use crate::ports::{PortRegistry, assigned_text, first_conflict, in_use_text, key_of, service_key};
use crate::state::{AppState, ProjectRegistry, registered, without};
use crate::text::{owned, str_eq};

verus! {

/// A service as the frontend sees it.
#[derive(Debug)]
pub struct ServiceInfo {
    pub name: String,
    pub service_type: String,
    pub status: String,
    pub port: Option<u16>,
    pub internal_port: Option<u16>,
    pub container_id: Option<String>,
    pub process_id: Option<u32>,
    pub error_message: Option<String>,
    pub image: Option<String>,
    pub command: Option<String>,
}

/// A service as the frontend sees it, strings as character sequences.
pub struct ServiceInfoView {
    pub name: Seq<char>,
    pub service_type: Seq<char>,
    pub status: Seq<char>,
    pub port: Option<u16>,
    pub internal_port: Option<u16>,
    pub container_id: Option<Seq<char>>,
    pub process_id: Option<u32>,
    pub error_message: Option<Seq<char>>,
    pub image: Option<Seq<char>>,
    pub command: Option<Seq<char>>,
}

impl View for ServiceInfo {
    type V = ServiceInfoView;

    open spec fn view(&self) -> ServiceInfoView {
        ServiceInfoView {
            name: self.name@,
            service_type: self.service_type@,
            status: self.status@,
            port: self.port,
            internal_port: self.internal_port,
            container_id: opt_view(self.container_id),
            process_id: self.process_id,
            error_message: opt_view(self.error_message),
            image: opt_view(self.image),
            command: opt_view(self.command),
        }
    }
}

/// A project as the frontend sees it.
#[derive(Debug)]
pub struct ProjectInfo {
    pub name: String,
    pub path: String,
    pub has_docker_compose: bool,
    pub services: Vec<ServiceInfo>,
}

/// A log line sent to the frontend.
#[derive(Debug)]
pub struct LogMessage {
    pub timestamp: String,
    pub level: String,
    pub service: Option<String>,
    pub project: Option<String>,
    pub message: String,
}

/// A request naming one service of one project.
#[derive(Debug)]
pub struct ServiceAction {
    pub project: String,
    pub service: String,
}

/// A request to pin a service to a port.
#[derive(Debug)]
pub struct SetPortAction {
    pub project: String,
    pub service: String,
    pub port: u16,
}

/// Messages exchanged over the WebSocket.
#[allow(inconsistent_fields)]
#[derive(Debug)]
pub enum WsMessage {
    Subscribe { project: Option<String>, service: Option<String> },
    Unsubscribe,
    StartService { project: String, service: String },
    StopService { project: String, service: String },
    RestartService { project: String, service: String },
    Log {
        timestamp: String,
        level: String,
        service: Option<String>,
        project: Option<String>,
        message: String,
    },
    ServiceUpdate { project: String, service: String, status: String, port: Option<u16> },
    ProjectsUpdate { projects: Vec<ProjectInfo> },
    Error { message: String },
}

/// The info of a configured service before any runtime state is known.
pub open spec fn info_from_config(name: Seq<char>, c: ServiceConfigView) -> ServiceInfoView {
    match c {
        ServiceConfigView::Docker(d) => ServiceInfoView {
            name,
            service_type: "docker"@,
            status: "stopped"@,
            port: None,
            internal_port: d.internal_port,
            container_id: None,
            process_id: None,
            error_message: None,
            image: Some(d.image),
            command: d.command,
        },
        ServiceConfigView::Process(p) => ServiceInfoView {
            name,
            service_type: "process"@,
            status: "stopped"@,
            port: None,
            internal_port: None,
            container_id: None,
            process_id: None,
            error_message: None,
            image: None,
            command: Some(p.command),
        },
        ServiceConfigView::Compose(c) => ServiceInfoView {
            name,
            service_type: "compose"@,
            status: "running"@,
            port: c.host_port,
            internal_port: c.internal_port,
            container_id: Some(c.container_id),
            process_id: None,
            error_message: None,
            image: Some(c.image),
            command: None,
        },
        ServiceConfigView::Agent(a) => ServiceInfoView {
            name,
            service_type: "agent"@,
            status: "stopped"@,
            port: None,
            internal_port: None,
            container_id: None,
            process_id: None,
            error_message: None,
            image: None,
            command: Some(a.command),
        },
    }
}

/// The lowercase name of a status, as the frontend shows it.
pub open spec fn status_word(s: ServiceStatus) -> Seq<char> {
    match s {
        ServiceStatus::Stopped => "stopped"@,
        ServiceStatus::Starting => "starting"@,
        ServiceStatus::Running => "running"@,
        ServiceStatus::Stopping => "stopping"@,
        ServiceStatus::Error => "error"@,
    }
}

/// The lowercase name of a status.
pub fn status_string(s: ServiceStatus) -> (r: String)
    ensures
        r@ == status_word(s),
{
    match s {
        ServiceStatus::Stopped => owned("stopped"),
        ServiceStatus::Starting => owned("starting"),
        ServiceStatus::Running => owned("running"),
        ServiceStatus::Stopping => owned("stopping"),
        ServiceStatus::Error => owned("error"),
    }
}

/// An info updated with a service's runtime state.
pub open spec fn info_with_state(i: ServiceInfoView, st: ServiceState) -> ServiceInfoView {
    ServiceInfoView {
        status: status_word(st.status),
        port: if st.port is Some {
            st.port
        } else {
            i.port
        },
        container_id: if st.container_id is Some {
            opt_view(st.container_id)
        } else {
            i.container_id
        },
        process_id: st.process_id,
        error_message: opt_view(st.error_message),
        ..i
    }
}

impl ServiceInfo {
    /// The info of a configured service before any runtime state is known.
    pub fn from_config(name: &str, config: &ServiceConfig) -> (r: Self)
        ensures
            r@ == info_from_config(name@, config@),
    {
        match config {
            ServiceConfig::Docker(c) => ServiceInfo {
                name: owned(name),
                service_type: owned("docker"),
                status: owned("stopped"),
                port: None,
                internal_port: c.internal_port,
                container_id: None,
                process_id: None,
                error_message: None,
                image: Some(c.image.clone()),
                command: clone_opt_string(&c.command),
            },
            ServiceConfig::Process(c) => ServiceInfo {
                name: owned(name),
                service_type: owned("process"),
                status: owned("stopped"),
                port: None,
                internal_port: None,
                container_id: None,
                process_id: None,
                error_message: None,
                image: None,
                command: Some(c.command.clone()),
            },
            ServiceConfig::Compose(c) => ServiceInfo {
                name: owned(name),
                service_type: owned("compose"),
                status: owned("running"),
                port: c.host_port,
                internal_port: c.internal_port,
                container_id: Some(c.container_id.clone()),
                process_id: None,
                error_message: None,
                image: Some(c.image.clone()),
                command: None,
            },
            ServiceConfig::Agent(c) => ServiceInfo {
                name: owned(name),
                service_type: owned("agent"),
                status: owned("stopped"),
                port: None,
                internal_port: None,
                container_id: None,
                process_id: None,
                error_message: None,
                image: None,
                command: Some(c.command.clone()),
            },
        }
    }

    /// Brings the runtime state of the service into this info.
    pub fn update_from_state(&mut self, state: &ServiceState)
        ensures
            final(self)@ == info_with_state(old(self)@, *state),
    {
        self.status = status_string(state.status);
        if state.port.is_some() {
            self.port = state.port;
        }
        if state.container_id.is_some() {
            self.container_id = clone_opt_string(&state.container_id);
        }
        self.process_id = state.process_id;
        self.error_message = clone_opt_string(&state.error_message);
    }
}

/// The info of one service of a project: from its configuration, updated with
/// its runtime state, with the registry's port when the state gives none.
pub open spec fn project_service_info(
    project: Seq<char>,
    name: Seq<char>,
    c: ServiceConfigView,
    app_state: AppState,
    registry: PortRegistry,
) -> ServiceInfoView {
    let base = info_from_config(name, c);
    let with_state = match app_state.state_of(project, name) {
        Some(st) => info_with_state(base, st),
        None => base,
    };
    if with_state.port is None {
        ServiceInfoView { port: registry.assigned().get(key_of(project, name)), ..with_state }
    } else {
        with_state
    }
}

/// The infos of all services of a project, in configuration order.
pub open spec fn project_service_infos(
    project: Seq<char>,
    s: Seq<(Seq<char>, ServiceConfig)>,
    app_state: AppState,
    registry: PortRegistry,
) -> Seq<ServiceInfoView>
    decreases s.len(),
{
    if s.len() == 0 {
        Seq::empty()
    } else {
        project_service_infos(project, s.drop_last(), app_state, registry).push(
            project_service_info(project, s.last().0, s.last().1@, app_state, registry),
        )
    }
}

impl ProjectInfo {
    /// The info of a project, with one entry per configured service in
    /// configuration order.
    pub fn from_project(p: &Project, app_state: &AppState, port_registry: &PortRegistry) -> (r: Self)
        ensures
            r.name == p.name,
            r.path == p.path,
            r.has_docker_compose == p.has_docker_compose,
            r.services@.map_values(|i: ServiceInfo| i@) == match p.config {
                Some(c) => project_service_infos(p.name@, c.services.pairs(), *app_state, *port_registry),
                None => Seq::empty(),
            },
    {
        let mut services: Vec<ServiceInfo> = Vec::new();
        match &p.config {
            Some(c) => {
                let ghost pairs = c.services.pairs();
                let mut i: usize = 0;
                while i < c.services.len()
                    invariant
                        i <= pairs.len(),
                        pairs == c.services.pairs(),
                        services@.map_values(|i: ServiceInfo| i@) == project_service_infos(p.name@, pairs.take(i as int), *app_state, *port_registry),
                    decreases pairs.len() - i,
                {
                    proof {
                        assert(pairs.take(i + 1).drop_last() =~= pairs.take(i as int));
                        assert(pairs.take(i + 1).last() == pairs[i as int]);
                    }
                    let name = c.services.key_at(i);
                    let config = c.services.value_at(i);
                    let mut info = ServiceInfo::from_config(name.as_str(), config);
                    if let Some(st) = app_state.get_service_state(p.name.as_str(), name.as_str()) {
                        info.update_from_state(st);
                    }
                    if info.port.is_none() {
                        info.port = port_registry.get_port(p.name.as_str(), name.as_str());
                    }
                    let ghost before = services@.map_values(|i: ServiceInfo| i@);
                    services.push(info);
                    assert(services@.map_values(|i: ServiceInfo| i@) =~= before.push(info@));
                    i = i + 1;
                }
                assert(pairs.take(pairs.len() as int) =~= pairs);
            },
            None => {
                assert(services@.map_values(|i: ServiceInfo| i@) =~= Seq::<ServiceInfoView>::empty());
            },
        }
        ProjectInfo {
            name: p.name.clone(),
            path: p.path.clone(),
            has_docker_compose: p.has_docker_compose,
            services,
        }
    }
}


/// Why a request is refused, with the text the client is sent.
#[derive(Debug)]
pub enum ApiError {
    /// The request itself is invalid (400).
    BadRequest(String),
    /// What it names does not exist (404).
    NotFound(String),
    /// It clashes with the current state (409).
    Conflict(String),
    /// Carrying it out failed (500).
    Internal(String),
    /// A needed service (docker) is not available (503).
    Unavailable(String),
}

/// The first project with the given name.
pub open spec fn project_named(ps: Seq<Project>, name: Seq<char>) -> Option<Project>
    decreases ps.len(),
{
    if ps.len() == 0 {
        None
    } else if ps[0].name@ == name {
        Some(ps[0])
    } else {
        project_named(ps.drop_first(), name)
    }
}

proof fn lemma_project_named_skip(ps: Seq<Project>, name: Seq<char>, i: int)
    requires
        0 <= i < ps.len(),
        ps[i].name@ != name,
    ensures
        project_named(ps.skip(i), name) == project_named(ps.skip(i + 1), name),
{
    assert(ps.skip(i)[0] == ps[i]);
    assert(ps.skip(i).drop_first() =~= ps.skip(i + 1));
}

/// Position of the first project with the given name.
pub fn find_project(projects: &Vec<Project>, name: &str) -> (r: Option<usize>)
    ensures
        match r {
            Some(i) => i < projects@.len() && projects@[i as int].name@ == name@ && project_named(
                projects@,
                name@,
            ) == Some(projects@[i as int]),
            None => project_named(projects@, name@) is None,
        },
{
    let mut i: usize = 0;
    assert(projects@.skip(0) =~= projects@);
    while i < projects.len()
        invariant
            i <= projects@.len(),
            project_named(projects@, name@) == project_named(projects@.skip(i as int), name@),
        decreases projects@.len() - i,
    {
        if str_eq(projects[i].name.as_str(), name) {
            assert(projects@.skip(i as int)[0] == projects@[i as int]);
            return Some(i);
        }
        proof {
            lemma_project_named_skip(projects@, name@, i as int);
        }
        i = i + 1;
    }
    assert(projects@.skip(i as int) =~= Seq::<Project>::empty());
    None
}

/// The configuration of a project's service, or why a request for it is not found.
pub open spec fn service_lookup(ps: Seq<Project>, project: Seq<char>, service: Seq<char>) -> Result<
    ServiceConfig,
    Seq<char>,
> {
    match project_named(ps, project) {
        None => Err("Project not found"@),
        Some(p) => match p.config {
            None => Err("Project has no config"@),
            Some(c) => match c.services.lookup(service) {
                None => Err("Service not found"@),
                Some(sc) => Ok(sc),
            },
        },
    }
}

/// Finds the project a request for a service names: its position, when the
/// project exists, has a configuration and configures the service; the
/// "not found" answer otherwise.
pub fn lookup_service(projects: &Vec<Project>, project: &str, service: &str) -> (r: Result<usize, ApiError>)
    ensures
        match service_lookup(projects@, project@, service@) {
            Ok(sc) => r matches Ok(i) && i < projects@.len() && project_named(projects@, project@) == Some(
                projects@[i as int],
            ) && (projects@[i as int].config matches Some(c) && c.services.lookup(service@) == Some(sc)),
            Err(m) => r matches Err(ApiError::NotFound(e)) && e@ == m,
        },
{
    match find_project(projects, project) {
        None => Err(ApiError::NotFound(owned("Project not found"))),
        Some(i) => match &projects[i].config {
            None => Err(ApiError::NotFound(owned("Project has no config"))),
            Some(c) => {
                if c.services.contains_key(service) {
                    Ok(i)
                } else {
                    Err(ApiError::NotFound(owned("Service not found")))
                }
            },
        },
    }
}

/// The ports of a project's services known when one is started from the
/// server: a service's recorded port, overridden by a compose service's
/// host port; in configuration order.
pub open spec fn known_ports(project: Seq<char>, pairs: Seq<(Seq<char>, ServiceConfig)>, st: AppState) -> Map<
    Seq<char>,
    u16,
>
    decreases pairs.len(),
{
    if pairs.len() == 0 {
        Map::empty()
    } else {
        let m = known_ports(project, pairs.drop_last(), st);
        let name = pairs.last().0;
        let m1 = match st.state_of(project, name) {
            Some(s) => match s.port {
                Some(p) => m.insert(name, p),
                None => m,
            },
            None => m,
        };
        match pairs.last().1 {
            ServiceConfig::Compose(cc) => match cc.host_port {
                Some(h) => m1.insert(name, h),
                None => m1,
            },
            _ => m1,
        }
    }
}

/// The service ports used to interpolate the environment of a service being
/// started on `port`.
pub fn start_ports(config: &ProjectConfig, app_state: &AppState, project: &str, service: &str, port: u16) -> (r: NameMap<u16>)
    ensures
        r.wf(),
        r@ == known_ports(project@, config.services.pairs(), *app_state).insert(service@, port),
{
    let mut m: NameMap<u16> = NameMap::new();
    proof {
        lemma_empty_view(&m);
    }
    let ghost pairs = config.services.pairs();
    let mut i: usize = 0;
    while i < config.services.len()
        invariant
            i <= pairs.len(),
            pairs == config.services.pairs(),
            m.wf(),
            m@ == known_ports(project@, pairs.take(i as int), *app_state),
        decreases pairs.len() - i,
    {
        proof {
            assert(pairs.take(i + 1).drop_last() =~= pairs.take(i as int));
            assert(pairs.take(i + 1).last() == pairs[i as int]);
        }
        let name = config.services.key_at(i);
        match app_state.get_service_state(project, name.as_str()) {
            Some(st) => match st.port {
                Some(p) => {
                    m.insert(name.clone(), p);
                },
                None => {},
            },
            None => {},
        }
        match config.services.value_at(i) {
            ServiceConfig::Compose(cc) => match cc.host_port {
                Some(h) => {
                    m.insert(name.clone(), h);
                },
                None => {},
            },
            _ => {},
        }
        i = i + 1;
    }
    assert(pairs.take(pairs.len() as int) =~= pairs);
    m.insert(owned(service), port);
    m
}

/// The port a compose service is started on: its allocated port, else its
/// compose host port, else 0.
pub fn compose_start_port(allocated: &Result<u16, EnvibeError>, host_port: Option<u16>) -> (r: u16)
    ensures
        r == match allocated {
            Ok(p) => *p,
            Err(_) => match host_port {
                Some(h) => h,
                None => 0,
            },
        },
{
    match allocated {
        Ok(p) => *p,
        Err(_) => match host_port {
            Some(h) => h,
            None => 0,
        },
    }
}

/// The container configuration a compose service is started with: its
/// image, environment, volumes and internal port; no published ports,
/// command or dependencies.
pub fn docker_config_from_compose(c: &ComposeServiceConfig) -> (r: DockerServiceConfig)
    requires
        c.env.wf(),
    ensures
        r.image == c.image,
        r.env.pairs() == c.env.pairs(),
        r.env@ == c.env@,
        r.volumes@ == c.volumes@,
        r.ports@.len() == 0,
        r.command is None,
        r.depends_on@.len() == 0,
        r.internal_port == c.internal_port,
{
    DockerServiceConfig {
        image: c.image.clone(),
        env: clone_env(&c.env),
        volumes: clone_strings(&c.volumes),
        ports: Vec::new(),
        command: None,
        depends_on: Vec::new(),
        internal_port: c.internal_port,
    }
}


/// The configuration of a project's service, when both are known.
pub open spec fn configured_service(ps: Seq<Project>, project: Seq<char>, service: Seq<char>) -> Option<ServiceConfig> {
    match service_lookup(ps, project, service) {
        Ok(sc) => Some(sc),
        Err(_) => None,
    }
}

/// How a request to stop a service is carried out.
#[derive(Debug)]
pub enum StopPlan {
    /// Stop the service's process.
    Process,
    /// Stop the container with this id.
    Container(String),
    /// No container id is recorded: look for the service's container among
    /// the containers this tool created.
    FindContainer,
    /// Stop the agent with this key.
    Agent(String),
    /// The service is not configured: stop a process of that name, if any,
    /// ignoring failures.
    Unconfigured,
}

/// Decides how to stop a project's service: by its kind, and for a
/// container service by the container id its state records.
pub fn plan_stop(projects: &Vec<Project>, app_state: &AppState, project: &str, service: &str) -> (r: StopPlan)
    ensures
        match configured_service(projects@, project@, service@) {
            None => r is Unconfigured,
            Some(ServiceConfig::Process(_)) => r is Process,
            Some(ServiceConfig::Agent(_)) => r matches StopPlan::Agent(k) && k@ == key_of(project@, service@),
            Some(_) => match app_state.state_of(project@, service@) {
                Some(st) if st.container_id is Some => r matches StopPlan::Container(id) && id@ == st.container_id->0@,
                _ => r is FindContainer,
            },
        },
{
    match lookup_service(projects, project, service) {
        Err(_) => StopPlan::Unconfigured,
        Ok(i) => {
            let c = match &projects[i].config {
                Some(c) => c,
                None => {
                    return StopPlan::Unconfigured;
                },
            };
            match c.services.get(service) {
                Some(ServiceConfig::Process(_)) => StopPlan::Process,
                Some(ServiceConfig::Agent(_)) => StopPlan::Agent(service_key(project, service)),
                Some(_) => {
                    let id = match app_state.get_service_state(project, service) {
                        Some(st) => clone_opt_string(&st.container_id),
                        None => None,
                    };
                    match id {
                        Some(id) => StopPlan::Container(id),
                        None => StopPlan::FindContainer,
                    }
                },
                None => StopPlan::Unconfigured,
            }
        },
    }
}

/// The ids of the listed (id, project, service) containers that run the
/// given project's service, in order.
pub open spec fn ids_running(cs: Seq<(Seq<char>, Seq<char>, Seq<char>)>, project: Seq<char>, service: Seq<char>) -> Seq<Seq<char>>
    decreases cs.len(),
{
    if cs.len() == 0 {
        Seq::empty()
    } else {
        let rest = ids_running(cs.drop_last(), project, service);
        if cs.last().1 == project && cs.last().2 == service {
            rest.push(cs.last().0)
        } else {
            rest
        }
    }
}

/// The containers to try, in order, when a service's container id is not
/// recorded: those this tool created for the project's service.
pub fn matching_container_ids(containers: &Vec<(String, String, String)>, project: &str, service: &str) -> (r: Vec<String>)
    ensures
        r@.map_values(|s: String| s@) == ids_running(
            containers@.map_values(|t: (String, String, String)| triple_view(t)),
            project@,
            service@,
        ),
{
    let ghost cs = containers@.map_values(|t: (String, String, String)| triple_view(t));
    let mut r: Vec<String> = Vec::new();
    let mut i: usize = 0;
    while i < containers.len()
        invariant
            i <= containers.len(),
            cs == containers@.map_values(|t: (String, String, String)| triple_view(t)),
            r@.map_values(|s: String| s@) == ids_running(cs.take(i as int), project@, service@),
        decreases containers.len() - i,
    {
        proof {
            assert(cs.take(i + 1).drop_last() =~= cs.take(i as int));
            assert(cs.take(i + 1).last() == cs[i as int]);
        }
        let ghost before = r@.map_values(|s: String| s@);
        if str_eq(containers[i].1.as_str(), project) && str_eq(containers[i].2.as_str(), service) {
            let id = containers[i].0.clone();
            r.push(id);
            assert(r@.map_values(|s: String| s@) =~= before.push(cs[i as int].0));
        }
        i = i + 1;
    }
    assert(cs.take(containers.len() as int) =~= cs);
    r
}

/// Pins a project's service to a port, as the server's port request does:
/// ports below 1024 are refused; a port held by another service, or taken on
/// the system, is a conflict; otherwise the port is recorded, and a recorded
/// state of the service gets it too.
pub fn set_service_port<F: Fn(u16) -> bool>(
    registry: &mut PortRegistry,
    app_state: &mut AppState,
    project: &str,
    service: &str,
    port: u16,
    available: F,
) -> (r: Result<u16, ApiError>)
    requires
        old(registry).wf(),
        old(app_state).wf(),
        call_requires(available, (port,)),
    ensures
        final(registry).wf(),
        final(app_state).wf(),
        port < 1024 ==> {
            &&& r matches Err(ApiError::BadRequest(m)) && m@ == "Port must be between 1024 and 65535"@
            &&& *final(registry) == *old(registry)
            &&& *final(app_state) == *old(app_state)
        },
        port >= 1024 ==> ({
            let key = key_of(project@, service@);
            match first_conflict(old(registry).entries(), key, port) {
                Some(other) => {
                    &&& r matches Err(ApiError::Conflict(m)) && m@ == "Port allocation failed: "@ + assigned_text(port, other)
                    &&& final(registry).assigned() == old(registry).assigned()
                    &&& *final(app_state) == *old(app_state)
                },
                None => ({
                    &&& call_ensures(available, (port,), false)
                    &&& old(registry).assigned().get(key) != Some(port)
                    &&& r matches Err(ApiError::Conflict(m)) && m@ == "Port allocation failed: "@ + in_use_text(port)
                    &&& final(registry).assigned() == old(registry).assigned()
                    &&& *final(app_state) == *old(app_state)
                }) || ({
                    &&& call_ensures(available, (port,), true) || old(registry).assigned().get(key) == Some(port)
                    &&& r == Ok::<u16, ApiError>(port)
                    &&& final(registry).assigned() == old(registry).assigned().insert(key, port)
                    &&& match old(app_state).state_of(project@, service@) {
                        Some(st) => AppState::recorded(
                            *old(app_state),
                            *final(app_state),
                            project@,
                            st.name@,
                            ServiceStateView { port: Some(port), ..st@ },
                        ),
                        None => *final(app_state) == *old(app_state),
                    }
                }),
            }
        }),
{
    if port < 1024 {
        return Err(ApiError::BadRequest(owned("Port must be between 1024 and 65535")));
    }
    match registry.set_port(project, service, port, available) {
        Ok(()) => {
            match app_state.get_service_state(project, service) {
                Some(st) => {
                    let mut new_state = st.clone();
                    new_state.port = Some(port);
                    let ghost ns = new_state;
                    app_state.set_service_state(project, new_state);
                    assert(app_state.state_of(project@, ns.name@) == Some(ns));
                },
                None => {},
            }
            Ok(port)
        },
        Err(e) => Err(ApiError::Conflict(e.message())),
    }
}

/// Registers a project directory; the same directory (compared by path
/// components) already registered is a conflict.
pub fn register_project(registry: &mut ProjectRegistry, path: String) -> (r: Result<(), ApiError>)
    ensures
        registered(old(registry).path_seq(), path@) ==> (r matches Err(ApiError::Conflict(m)) && m@
            == "Project already added"@) && final(registry).path_seq() == old(registry).path_seq(),
        !registered(old(registry).path_seq(), path@) ==> r is Ok && final(registry).path_seq() == old(
            registry,
        ).path_seq().push(path@),
{
    if registry.add(path) {
        Ok(())
    } else {
        Err(ApiError::Conflict(owned("Project already added")))
    }
}

/// Unregisters a project directory; one not registered is not found.
pub fn unregister_project(registry: &mut ProjectRegistry, path: &str) -> (r: Result<(), ApiError>)
    ensures
        final(registry).path_seq() == without(old(registry).path_seq(), path@),
        registered(old(registry).path_seq(), path@) <==> r is Ok,
        !registered(old(registry).path_seq(), path@) ==> (r matches Err(ApiError::NotFound(m)) && m@
            == "Project not in registry"@),
{
    if registry.remove(path) {
        Ok(())
    } else {
        Err(ApiError::NotFound(owned("Project not in registry")))
    }
}


/// Where the environment of a project or one of its services comes from.
#[derive(Debug)]
pub struct EnvSources {
    /// The project's env file, as a path, when the project configures one.
    pub project_file: Option<String>,
    /// The service's env file, as a path, when it is a process service that
    /// configures one.
    pub service_file: Option<String>,
    /// The variables the service's configuration sets (process and docker
    /// services).
    pub inline: NameMap<String>,
}

/// The path of a project's env file, when its configuration names one.
pub open spec fn project_env_path(p: Project) -> Option<Seq<char>> {
    match p.config {
        Some(c) => match c.env_file {
            Some(f) => Some(joined_path(p.path@, f@)),
            None => None,
        },
        None => None,
    }
}

/// The configuration of one of a project's services.
pub open spec fn service_of(p: Project, service: Seq<char>) -> Option<ServiceConfig> {
    match p.config {
        Some(c) => c.services.lookup(service),
        None => None,
    }
}

/// The path of a process service's env file, when it names one.
pub open spec fn service_env_path(p: Project, service: Seq<char>) -> Option<Seq<char>> {
    match service_of(p, service) {
        Some(ServiceConfig::Process(pc)) => match pc.env_file {
            Some(f) => Some(joined_path(p.path@, f@)),
            None => None,
        },
        _ => None,
    }
}

/// The variables a service's configuration sets, in entry order.
pub open spec fn inline_env_pairs(p: Project, service: Seq<char>) -> Seq<(Seq<char>, String)> {
    match service_of(p, service) {
        Some(ServiceConfig::Process(pc)) => pc.env.pairs(),
        Some(ServiceConfig::Docker(d)) => d.env.pairs(),
        _ => Seq::empty(),
    }
}

fn joined_opt(base: &str, rel: &Option<String>) -> (r: Option<String>)
    ensures
        r is Some <==> rel is Some,
        r is Some ==> r->0@ == joined_path(base@, rel->0@),
{
    match rel {
        Some(f) => Some(path_join(base, f.as_str())),
        None => None,
    }
}

/// Where the environment of a project comes from (no service), or of one of
/// its services.
pub fn env_sources(p: &Project, service: Option<&str>) -> (r: EnvSources)
    ensures
        opt_view(r.project_file) == project_env_path(*p),
        match service {
            Some(sv) => opt_view(r.service_file) == service_env_path(*p, sv@) && r.inline.pairs()
                == inline_env_pairs(*p, sv@),
            None => r.service_file is None && r.inline.pairs().len() == 0,
        },
{
    let project_file = match &p.config {
        Some(c) => joined_opt(p.path.as_str(), &c.env_file),
        None => None,
    };
    match service {
        None => EnvSources { project_file, service_file: None, inline: NameMap::new() },
        Some(sv) => {
            let found = match &p.config {
                Some(c) => c.services.get(sv),
                None => None,
            };
            match found {
                Some(ServiceConfig::Process(pc)) => EnvSources {
                    project_file,
                    service_file: joined_opt(p.path.as_str(), &pc.env_file),
                    inline: pc.env.copy(),
                },
                Some(ServiceConfig::Docker(d)) => EnvSources {
                    project_file,
                    service_file: None,
                    inline: d.env.copy(),
                },
                _ => EnvSources { project_file, service_file: None, inline: NameMap::new() },
            }
        },
    }
}


/// Whether a project's service is a configured agent (restarting one stops
/// the agent rather than a process).
pub fn is_agent_service(projects: &Vec<Project>, project: &str, service: &str) -> (r: bool)
    ensures
        r == (configured_service(projects@, project@, service@) matches Some(ServiceConfig::Agent(_))),
{
    match lookup_service(projects, project, service) {
        Ok(i) => match &projects[i].config {
            Some(c) => match c.services.get(service) {
                Some(ServiceConfig::Agent(_)) => true,
                _ => false,
            },
            None => false,
        },
        Err(_) => false,
    }
}

} // verus!
