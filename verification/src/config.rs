//! Project and service configuration, and per-service runtime state.
use vstd::prelude::*;
use crate::namemap::NameMap;
use crate::text::owned;

verus! {

/// A project's configuration file.
#[derive(Debug)]
pub struct ProjectConfig {
    pub name: String,
    /// Path to an env file relative to the project directory.
    pub env_file: Option<String>,
    pub services: NameMap<ServiceConfig>,
}

/// How a service is run.
#[derive(Debug)]
pub enum ServiceConfig {
    Docker(DockerServiceConfig),
    Process(ProcessServiceConfig),
    /// Docker compose service (externally managed, read-only).
    Compose(ComposeServiceConfig),
    /// An interactive agent run in a pseudo-terminal.
    Agent(AgentServiceConfig),
}

/// Configuration for a docker compose managed service (externally managed).
#[derive(Debug)]
pub struct ComposeServiceConfig {
    /// The container ID.
    pub container_id: String,
    /// The image being used.
    pub image: String,
    /// Host port the service is exposed on (if any).
    pub host_port: Option<u16>,
    /// Internal port the service listens on.
    pub internal_port: Option<u16>,
    /// The compose project name.
    pub compose_project: String,
    /// Volume mounts (extracted from container).
    pub volumes: Vec<String>,
    /// Environment variables.
    pub env: NameMap<String>,
}

/// A container started and owned by this tool.
#[derive(Debug)]
pub struct DockerServiceConfig {
    pub image: String,
    pub env: NameMap<String>,
    pub volumes: Vec<String>,
    pub ports: Vec<String>,
    pub command: Option<String>,
    pub depends_on: Vec<String>,
    /// Internal port that the service listens on (e.g., 5432 for postgres).
    pub internal_port: Option<u16>,
}

/// A local process run through the shell.
#[derive(Debug)]
pub struct ProcessServiceConfig {
    pub command: String,
    pub working_dir: String,
    /// Path to an env file relative to the project directory.
    pub env_file: Option<String>,
    pub env: NameMap<String>,
    pub depends_on: Vec<String>,
}

/// An agent command run in a pseudo-terminal.
#[derive(Debug)]
pub struct AgentServiceConfig {
    pub command: String,
    pub args: Vec<String>,
    pub working_dir: String,
    pub env: NameMap<String>,
}

/// The working directory a process service gets when its configuration names none.
pub fn default_working_dir() -> (s: String)
    ensures
        s@ == seq!['.'],
{
    let s = owned(".");
    proof {
        reveal_strlit(".");
        assert("."@ =~= seq!['.']);
    }
    s
}

/// A project directory and what was found in it.
#[derive(Debug)]
pub struct Project {
    pub name: String,
    pub path: String,
    pub config: Option<ProjectConfig>,
    pub has_docker_compose: bool,
}

impl Project {
    /// A project with no configuration and no compose file.
    pub fn new(name: String, path: String) -> (p: Self)
        ensures
            p.name == name,
            p.path == path,
            p.config is None,
            !p.has_docker_compose,
    {
        Project { name, path, config: None, has_docker_compose: false }
    }
}

/// Lifecycle status of a service.
#[derive(Debug, Clone, Copy, PartialEq, Eq, Structural)]
pub enum ServiceStatus {
    Stopped,
    Starting,
    Running,
    Stopping,
    Error,
}

/// The display name of a status.
pub open spec fn status_label(s: ServiceStatus) -> Seq<char> {
    match s {
        ServiceStatus::Stopped => "Stopped"@,
        ServiceStatus::Starting => "Starting"@,
        ServiceStatus::Running => "Running"@,
        ServiceStatus::Stopping => "Stopping"@,
        ServiceStatus::Error => "Error"@,
    }
}

impl ServiceStatus {
    /// The display name of this status ("Stopped", "Starting", ...).
    pub fn label(&self) -> (s: String)
        ensures
            s@ == status_label(*self),
    {
        match self {
            ServiceStatus::Stopped => owned("Stopped"),
            ServiceStatus::Starting => owned("Starting"),
            ServiceStatus::Running => owned("Running"),
            ServiceStatus::Stopping => owned("Stopping"),
            ServiceStatus::Error => owned("Error"),
        }
    }
}

/// Runtime state of one service.
#[derive(Debug)]
pub struct ServiceState {
    pub name: String,
    pub status: ServiceStatus,
    pub port: Option<u16>,
    pub container_id: Option<String>,
    pub process_id: Option<u32>,
    pub error_message: Option<String>,
}

/// The state of a service that has not been started.
pub open spec fn fresh_state(name: Seq<char>) -> ServiceStateView {
    ServiceStateView {
        name,
        status: ServiceStatus::Stopped,
        port: None,
        container_id: None,
        process_id: None,
        error_message: None,
    }
}

/// A service state with its strings seen as character sequences.
pub struct ServiceStateView {
    pub name: Seq<char>,
    pub status: ServiceStatus,
    pub port: Option<u16>,
    pub container_id: Option<Seq<char>>,
    pub process_id: Option<u32>,
    pub error_message: Option<Seq<char>>,
}

/// An optional string seen as an optional character sequence.
pub open spec fn opt_view(o: Option<String>) -> Option<Seq<char>> {
    match o {
        Some(s) => Some(s@),
        None => None,
    }
}

impl View for ServiceState {
    type V = ServiceStateView;

    open spec fn view(&self) -> ServiceStateView {
        ServiceStateView {
            name: self.name@,
            status: self.status,
            port: self.port,
            container_id: opt_view(self.container_id),
            process_id: self.process_id,
            error_message: opt_view(self.error_message),
        }
    }
}

/// Copies an optional string.
pub fn clone_opt_string(o: &Option<String>) -> (r: Option<String>)
    ensures
        r == *o,
{
    match o {
        Some(s) => Some(s.clone()),
        None => None,
    }
}

impl ServiceState {
    /// The state of a service that has not been started.
    pub fn new(name: String) -> (s: Self)
        ensures
            s@ == fresh_state(name@),
            s.name == name,
    {
        ServiceState {
            name,
            status: ServiceStatus::Stopped,
            port: None,
            container_id: None,
            process_id: None,
            error_message: None,
        }
    }
}

impl Clone for ServiceState {
    fn clone(&self) -> (r: Self)
        ensures
            r == *self,
    {
        ServiceState {
            name: self.name.clone(),
            status: self.status,
            port: self.port,
            container_id: clone_opt_string(&self.container_id),
            process_id: self.process_id,
            error_message: clone_opt_string(&self.error_message),
        }
    }
}

/// Port ranges from which ports are allocated, per kind of service.
#[derive(Debug, Clone, Copy)]
pub struct PortRanges {
    pub postgres: (u16, u16),
    pub redis: (u16, u16),
    pub mysql: (u16, u16),
    pub mongo: (u16, u16),
    pub http: (u16, u16),
    pub generic: (u16, u16),
}

/// The ranges used when none are configured.
pub open spec fn default_port_ranges() -> PortRanges {
    PortRanges {
        postgres: (5432, 5500),
        redis: (6379, 6450),
        mysql: (3306, 3400),
        mongo: (27017, 27100),
        http: (3000, 3100),
        generic: (8000, 9000),
    }
}

impl Default for PortRanges {
    fn default() -> (r: Self)
        ensures
            r == default_port_ranges(),
    {
        PortRanges {
            postgres: (5432, 5500),
            redis: (6379, 6450),
            mysql: (3306, 3400),
            mongo: (27017, 27100),
            http: (3000, 3100),
            generic: (8000, 9000),
        }
    }
}

/// Path `rel` joined onto `base` on Unix: an absolute `rel` replaces `base`;
/// otherwise `rel` follows `base`, with a `/` between them when `base` is
/// not empty and does not end in one.
pub open spec fn joined_path(base: Seq<char>, rel: Seq<char>) -> Seq<char> {
    if rel.len() > 0 && rel[0] == '/' {
        rel
    } else if base.len() > 0 && base.last() != '/' {
        base + seq!['/'] + rel
    } else {
        base + rel
    }
}

/// std's `Path::join` on paths held as strings (UTF-8, so the lossy
/// conversion back loses nothing). On Unix, as std's `PathBuf::push`
/// documents it, an absolute path replaces the base and a separator is put
/// in only where the base lacks one; the program built on this library runs
/// on Unix only.
#[verifier::external_body]
pub(crate) fn path_join(base: &str, rel: &str) -> (r: String)
    ensures
        r@ == joined_path(base@, rel@),
{
    std::path::Path::new(base).join(rel).to_string_lossy().into_owned()
}

/// The user's home directory (the `dirs` crate's `home_dir`). What it returns
/// depends on the environment, so nothing is stated of it.
#[verifier::external_body]
pub(crate) fn home_dir() -> (r: Option<String>) {
    dirs::home_dir().map(|p| p.to_string_lossy().into_owned())
}

/// Application-wide settings.
#[derive(Debug)]
pub struct AppSettings {
    pub scan_directories: Vec<String>,
    pub port_ranges: PortRanges,
}

/// The directories scanned for projects under `base`.
pub open spec fn scan_dirs_under(base: Seq<char>) -> Seq<Seq<char>> {
    seq![
        joined_path(base, "developer"@),
        joined_path(base, "projects"@),
        joined_path(base, "Developer"@),
        joined_path(base, "Projects"@),
    ]
}

/// The base directory used for a home directory lookup outcome.
pub open spec fn home_or_dot(home: Option<Seq<char>>) -> Seq<char> {
    match home {
        Some(h) => h,
        None => seq!['.'],
    }
}

impl AppSettings {
    /// The scanned directories, as character sequences.
    pub open spec fn scan_dirs(&self) -> Seq<Seq<char>> {
        self.scan_directories@.map_values(|s: String| s@)
    }

    /// Default settings for a given outcome of the home directory lookup.
    pub fn with_home(home: Option<String>) -> (r: Self)
        ensures
            r.scan_dirs() == scan_dirs_under(home_or_dot(opt_view(home))),
            r.port_ranges == default_port_ranges(),
    {
        let base = match home {
            Some(h) => h,
            None => owned("."),
        };
        proof {
            reveal_strlit(".");
            assert("."@ =~= seq!['.']);
            assert(base@ == home_or_dot(opt_view(home)));
        }
        let mut dirs: Vec<String> = Vec::new();
        dirs.push(path_join(base.as_str(), "developer"));
        dirs.push(path_join(base.as_str(), "projects"));
        dirs.push(path_join(base.as_str(), "Developer"));
        dirs.push(path_join(base.as_str(), "Projects"));
        let r = AppSettings { scan_directories: dirs, port_ranges: PortRanges::default() };
        assert(r.scan_dirs() =~= scan_dirs_under(home_or_dot(opt_view(home))));
        r
    }

    /// Default settings: the usual project folders under the home directory
    /// (or under `.` when it is unknown), and the default port ranges.
    pub fn default() -> (r: Self)
        ensures
            exists|h: Option<Seq<char>>| r.scan_dirs() == scan_dirs_under(home_or_dot(h)),
            r.port_ranges == default_port_ranges(),
    {
        let home = home_dir();
        let r = AppSettings::with_home(home);
        assert(r.scan_dirs() == scan_dirs_under(home_or_dot(opt_view(home))));
        r
    }
}


/// A list of strings seen as character sequences.
pub open spec fn strings_view(v: Seq<String>) -> Seq<Seq<char>> {
    v.map_values(|s: String| s@)
}

/// A string-to-string map seen over character sequences.
pub open spec fn env_view(m: NameMap<String>) -> Map<Seq<char>, Seq<char>> {
    m@.map_values(|s: String| s@)
}

/// Copies a list of strings.
pub fn clone_strings(v: &Vec<String>) -> (r: Vec<String>)
    ensures
        r@ == v@,
{
    let mut r: Vec<String> = Vec::new();
    let mut i: usize = 0;
    while i < v.len()
        invariant
            i <= v.len(),
            r@ == v@.take(i as int),
        decreases v.len() - i,
    {
        r.push(v[i].clone());
        assert(v@.take(i as int).push(v@[i as int]) =~= v@.take(i + 1));
        i = i + 1;
    }
    assert(v@.take(v.len() as int) =~= v@);
    r
}

/// Copies a map of strings, keeping its entry order.
pub fn clone_env(m: &NameMap<String>) -> (r: NameMap<String>)
    requires
        m.wf(),
    ensures
        r.pairs() == m.pairs(),
        r@ == m@,
        r.wf(),
{
    let mut r: NameMap<String> = NameMap::new();
    let mut i: usize = 0;
    while i < m.len()
        invariant
            i <= m.pairs().len(),
            m.wf(),
            r.wf(),
            r.pairs() == m.pairs().take(i as int),
        decreases m.pairs().len() - i,
    {
        let k = m.key_at(i).clone();
        let v = m.value_at(i).clone();
        proof {
            assert(!r.has_key(k@)) by {
                if r.has_key(k@) {
                    let j = choose|j: int| 0 <= j < r.pairs().len() && #[trigger] r.pairs()[j].0 == k@;
                    assert(m.pairs()[j].0 == m.pairs()[i as int].0);
                }
            }
        }
        r.insert(k, v);
        assert(m.pairs().take(i as int).push(m.pairs()[i as int]) =~= m.pairs().take(i + 1));
        i = i + 1;
    }
    assert(m.pairs().take(m.pairs().len() as int) =~= m.pairs());
    proof {
        crate::namemap::lemma_same_pairs_same_map(&r, m);
    }
    r
}

/// A docker service configuration with strings seen as character sequences.
pub struct DockerView {
    pub image: Seq<char>,
    pub env: Map<Seq<char>, Seq<char>>,
    pub volumes: Seq<Seq<char>>,
    pub ports: Seq<Seq<char>>,
    pub command: Option<Seq<char>>,
    pub depends_on: Seq<Seq<char>>,
    pub internal_port: Option<u16>,
}

/// A process service configuration with strings seen as character sequences.
pub struct ProcessView {
    pub command: Seq<char>,
    pub working_dir: Seq<char>,
    pub env_file: Option<Seq<char>>,
    pub env: Map<Seq<char>, Seq<char>>,
    pub depends_on: Seq<Seq<char>>,
}

/// A compose service configuration with strings seen as character sequences.
pub struct ComposeView {
    pub container_id: Seq<char>,
    pub image: Seq<char>,
    pub host_port: Option<u16>,
    pub internal_port: Option<u16>,
    pub compose_project: Seq<char>,
    pub volumes: Seq<Seq<char>>,
    pub env: Map<Seq<char>, Seq<char>>,
}

/// An agent service configuration with strings seen as character sequences.
pub struct AgentView {
    pub command: Seq<char>,
    pub args: Seq<Seq<char>>,
    pub working_dir: Seq<char>,
    pub env: Map<Seq<char>, Seq<char>>,
}

/// A service configuration with strings seen as character sequences.
pub enum ServiceConfigView {
    Docker(DockerView),
    Process(ProcessView),
    Compose(ComposeView),
    Agent(AgentView),
}

impl View for DockerServiceConfig {
    type V = DockerView;

    open spec fn view(&self) -> DockerView {
        DockerView {
            image: self.image@,
            env: env_view(self.env),
            volumes: strings_view(self.volumes@),
            ports: strings_view(self.ports@),
            command: opt_view(self.command),
            depends_on: strings_view(self.depends_on@),
            internal_port: self.internal_port,
        }
    }
}

impl View for ProcessServiceConfig {
    type V = ProcessView;

    open spec fn view(&self) -> ProcessView {
        ProcessView {
            command: self.command@,
            working_dir: self.working_dir@,
            env_file: opt_view(self.env_file),
            env: env_view(self.env),
            depends_on: strings_view(self.depends_on@),
        }
    }
}

impl View for ComposeServiceConfig {
    type V = ComposeView;

    open spec fn view(&self) -> ComposeView {
        ComposeView {
            container_id: self.container_id@,
            image: self.image@,
            host_port: self.host_port,
            internal_port: self.internal_port,
            compose_project: self.compose_project@,
            volumes: strings_view(self.volumes@),
            env: env_view(self.env),
        }
    }
}

impl View for AgentServiceConfig {
    type V = AgentView;

    open spec fn view(&self) -> AgentView {
        AgentView {
            command: self.command@,
            args: strings_view(self.args@),
            working_dir: self.working_dir@,
            env: env_view(self.env),
        }
    }
}

impl View for ServiceConfig {
    type V = ServiceConfigView;

    open spec fn view(&self) -> ServiceConfigView {
        match self {
            ServiceConfig::Docker(c) => ServiceConfigView::Docker(c@),
            ServiceConfig::Process(c) => ServiceConfigView::Process(c@),
            ServiceConfig::Compose(c) => ServiceConfigView::Compose(c@),
            ServiceConfig::Agent(c) => ServiceConfigView::Agent(c@),
        }
    }
}

/// Services of a configuration, seen over character sequences.
pub open spec fn services_view(m: NameMap<ServiceConfig>) -> Map<Seq<char>, ServiceConfigView> {
    m@.map_values(|c: ServiceConfig| c@)
}

/// A copy of a service configuration.
pub fn copy_config(c: &ServiceConfig) -> (r: ServiceConfig)
    ensures
        r@ == c@,
{
    match c {
        ServiceConfig::Docker(d) => ServiceConfig::Docker(DockerServiceConfig {
            image: d.image.clone(),
            env: d.env.copy(),
            volumes: clone_strings(&d.volumes),
            ports: clone_strings(&d.ports),
            command: clone_opt_string(&d.command),
            depends_on: clone_strings(&d.depends_on),
            internal_port: d.internal_port,
        }),
        ServiceConfig::Process(p) => ServiceConfig::Process(ProcessServiceConfig {
            command: p.command.clone(),
            working_dir: p.working_dir.clone(),
            env_file: clone_opt_string(&p.env_file),
            env: p.env.copy(),
            depends_on: clone_strings(&p.depends_on),
        }),
        ServiceConfig::Compose(cc) => ServiceConfig::Compose(ComposeServiceConfig {
            container_id: cc.container_id.clone(),
            image: cc.image.clone(),
            host_port: cc.host_port,
            internal_port: cc.internal_port,
            compose_project: cc.compose_project.clone(),
            volumes: clone_strings(&cc.volumes),
            env: cc.env.copy(),
        }),
        ServiceConfig::Agent(a) => ServiceConfig::Agent(AgentServiceConfig {
            command: a.command.clone(),
            args: clone_strings(&a.args),
            working_dir: a.working_dir.clone(),
            env: a.env.copy(),
        }),
    }
}

} // verus!
