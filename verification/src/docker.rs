//! Docker container helpers: what the library decides about containers it
//! creates, finds and reports on.
use vstd::prelude::*;
use crate::config::{DockerServiceConfig, DockerView, ServiceStatus, opt_view};
use crate::namemap::NameMap;
use crate::text::{
    chars_of, concat2, concat3, decimal, find_char, first_index_of, slice_chars, string_from_chars, lowercase, owned, seq_contains, seq_starts_with, split_once,
    split_once_str, str_contains, str_eq, str_starts_with, str_starts_with_char, to_lowercase,
    u64_to_decimal,
};

verus! {

/// Represents a running docker compose container.
#[derive(Debug)]
pub struct ComposeContainer {
    pub id: String,
    pub project: String,
    pub service: String,
    pub image: String,
    /// (container_port, host_port) pairs.
    pub ports: Vec<(u16, u16)>,
    /// Mounts in `source:destination` form.
    pub volumes: Vec<String>,
}

/// The name of the container that runs a project's service.
pub open spec fn container_name_of(project: Seq<char>, service: Seq<char>) -> Seq<char> {
    project + "_"@ + service
}

/// The name of the container that runs a project's service: `project_service`.
pub fn container_name(project: &str, service: &str) -> (r: String)
    ensures
        r@ == container_name_of(project@, service@),
{
    concat3(project, "_", service)
}

/// The port a container started from an image listens on, from the image's
/// lowercased name.
pub open spec fn image_port_for(lower: Seq<char>) -> Option<u16> {
    if seq_contains(lower, "postgres"@) {
        Some(5432)
    } else if seq_contains(lower, "redis"@) {
        Some(6379)
    } else if seq_contains(lower, "mysql"@) || seq_contains(lower, "mariadb"@) {
        Some(3306)
    } else if seq_contains(lower, "mongo"@) {
        Some(27017)
    } else if seq_contains(lower, "nginx"@) {
        Some(80)
    } else {
        None
    }
}

/// The port a container started from `image` listens on, when the image is
/// a well-known one; case is ignored.
pub fn image_internal_port(image: &str) -> (r: Option<u16>)
    ensures
        r == image_port_for(lowercase(image@)),
{
    let l = to_lowercase(image);
    let s = l.as_str();
    if str_contains(s, "postgres") {
        Some(5432)
    } else if str_contains(s, "redis") {
        Some(6379)
    } else if str_contains(s, "mysql") || str_contains(s, "mariadb") {
        Some(3306)
    } else if str_contains(s, "mongo") {
        Some(27017)
    } else if str_contains(s, "nginx") {
        Some(80)
    } else {
        None
    }
}

/// The port inside the container that the host port is bound to: the
/// configured one, else the image's well-known port, else 8080.
pub open spec fn container_port_of(c: DockerView) -> u16 {
    match c.internal_port {
        Some(p) => p,
        None => match image_port_for(lowercase(c.image)) {
            Some(p) => p,
            None => 8080,
        },
    }
}

/// The port inside the container that the host port is bound to.
pub fn container_internal_port(config: &DockerServiceConfig) -> (r: u16)
    ensures
        r == container_port_of(config@),
{
    match config.internal_port {
        Some(p) => p,
        None => match image_internal_port(config.image.as_str()) {
            Some(p) => p,
            None => 8080,
        },
    }
}

/// The key docker uses for a TCP port: `port/tcp`.
pub open spec fn tcp_key(port: u16) -> Seq<char> {
    decimal(port as nat) + "/tcp"@
}

/// The key docker uses for a TCP port: `port/tcp`.
pub fn tcp_port_key(port: u16) -> (r: String)
    ensures
        r@ == tcp_key(port),
{
    let d = u64_to_decimal(port as u64);
    concat2(d.as_str(), "/tcp")
}

/// What to do with a container of the same name that already exists.
#[derive(Debug, Clone, Copy, PartialEq, Eq, Structural)]
pub enum ExistingContainerPlan {
    /// It is bound to the requested port and running: use it as it is.
    Keep,
    /// It is bound to the requested port and not running: start it.
    Start,
    /// It is bound elsewhere: remove it (stopping it first when it runs) and
    /// create a new one.
    Recreate { stop_first: bool },
}

/// Whether an existing binding is to the requested host port.
pub open spec fn binding_is(existing: Option<Seq<char>>, host_port: u16) -> bool {
    existing == Some(decimal(host_port as nat))
}

/// The plan for an existing container, from its current host port binding
/// and whether it runs.
pub open spec fn existing_plan(existing: Option<Seq<char>>, running: bool, host_port: u16) -> ExistingContainerPlan {
    if binding_is(existing, host_port) {
        if running {
            ExistingContainerPlan::Keep
        } else {
            ExistingContainerPlan::Start
        }
    } else {
        ExistingContainerPlan::Recreate { stop_first: running }
    }
}

/// Decides what to do with an existing container whose host binding for the
/// service port is `existing_port` (the host port as docker reports it).
pub fn plan_existing_container(existing_port: &Option<String>, running: bool, host_port: u16) -> (r: ExistingContainerPlan)
    ensures
        r == existing_plan(opt_view(*existing_port), running, host_port),
{
    let wanted = u64_to_decimal(host_port as u64);
    let matches = match existing_port {
        Some(p) => str_eq(p.as_str(), wanted.as_str()),
        None => false,
    };
    if matches {
        if running {
            ExistingContainerPlan::Keep
        } else {
            ExistingContainerPlan::Start
        }
    } else {
        ExistingContainerPlan::Recreate { stop_first: running }
    }
}


/// One `KEY=value` assignment per environment entry, in entry order.
pub open spec fn env_assignment_seq(pairs: Seq<(Seq<char>, String)>) -> Seq<Seq<char>> {
    pairs.map_values(|e: (Seq<char>, String)| e.0 + "="@ + e.1@)
}

/// The environment of a container as docker takes it: `KEY=value` strings,
/// in the map's entry order.
pub fn env_assignments(env: &NameMap<String>) -> (r: Vec<String>)
    ensures
        r@.map_values(|s: String| s@) == env_assignment_seq(env.pairs()),
{
    let mut r: Vec<String> = Vec::new();
    let mut i: usize = 0;
    while i < env.len()
        invariant
            i <= env.pairs().len(),
            r@.map_values(|s: String| s@) == env_assignment_seq(env.pairs().take(i as int)),
        decreases env.pairs().len() - i,
    {
        let a = concat3(env.key_at(i).as_str(), "=", env.value_at(i).as_str());
        let ghost before = r@.map_values(|s: String| s@);
        r.push(a);
        proof {
            assert(env.pairs().take(i + 1) =~= env.pairs().take(i as int).push(env.pairs()[i as int]));
            assert(r@.map_values(|s: String| s@) =~= before.push(a@));
            assert(env_assignment_seq(env.pairs().take(i + 1)) =~= env_assignment_seq(env.pairs().take(i as int)).push(a@));
        }
        i = i + 1;
    }
    assert(env.pairs().take(env.pairs().len() as int) =~= env.pairs());
    r
}

/// A volume source that names a docker volume rather than a host path: it
/// does not start with `.`, `/` or `~`.
pub open spec fn is_named_volume(source: Seq<char>) -> bool {
    !seq_starts_with(source, "."@) && !seq_starts_with(source, "/"@) && !seq_starts_with(source, "~"@)
}

/// The bind a volume declaration becomes: a named volume gets the project
/// name as prefix (the compose convention), unless it already has it; host
/// paths and declarations without `:` stay as they are.
pub open spec fn bind_of(project: Seq<char>, v: Seq<char>) -> Seq<char> {
    match split_once(v, ':') {
        Some((source, dest)) => if is_named_volume(source) {
            if seq_starts_with(source, project + "_"@) {
                v
            } else {
                project + "_"@ + source + ":"@ + dest
            }
        } else {
            v
        },
        None => v,
    }
}

/// The bind a volume declaration becomes for a project's container.
pub fn volume_bind(project: &str, v: &str) -> (r: String)
    ensures
        r@ == bind_of(project@, v@),
{
    match split_once_str(v, ':') {
        Some((source, dest)) => {
            let s = source.as_str();
            proof {
                reveal_strlit(".");
                reveal_strlit("/");
                reveal_strlit("~");
                assert("."@ =~= seq!['.']);
                assert("/"@ =~= seq!['/']);
                assert("~"@ =~= seq!['~']);
                crate::text::lemma_starts_with_char(source@, '.');
                crate::text::lemma_starts_with_char(source@, '/');
                crate::text::lemma_starts_with_char(source@, '~');
            }
            if !str_starts_with_char(s, '.') && !str_starts_with_char(s, '/') && !str_starts_with_char(s, '~') {
                let prefix = concat2(project, "_");
                if str_starts_with(s, prefix.as_str()) {
                    owned(v)
                } else {
                    let head = concat3(prefix.as_str(), s, ":");
                    let r = concat2(head.as_str(), dest.as_str());
                    assert(r@ =~= project@ + "_"@ + source@ + ":"@ + dest@);
                    r
                }
            } else {
                owned(v)
            }
        },
        None => owned(v),
    }
}

/// The binds of all volume declarations, in order.
pub fn volume_binds(project: &str, volumes: &Vec<String>) -> (r: Vec<String>)
    ensures
        r@.map_values(|s: String| s@) == volumes@.map_values(|v: String| bind_of(project@, v@)),
{
    let mut r: Vec<String> = Vec::new();
    let mut i: usize = 0;
    while i < volumes.len()
        invariant
            i <= volumes.len(),
            r@.map_values(|s: String| s@) == volumes@.take(i as int).map_values(|v: String| bind_of(project@, v@)),
        decreases volumes.len() - i,
    {
        let b = volume_bind(project, volumes[i].as_str());
        let ghost before = r@.map_values(|s: String| s@);
        r.push(b);
        proof {
            assert(volumes@.take(i + 1) =~= volumes@.take(i as int).push(volumes@[i as int]));
            assert(r@.map_values(|s: String| s@) =~= before.push(b@));
            assert(volumes@.take(i + 1).map_values(|v: String| bind_of(project@, v@)) =~= volumes@.take(i as int).map_values(|v: String| bind_of(project@, v@)).push(b@));
        }
        i = i + 1;
    }
    assert(volumes@.take(volumes.len() as int) =~= volumes@);
    r
}


/// Everything docker is asked for when the library creates a service's
/// container, as plain values.
#[derive(Debug)]
pub struct ContainerSpec {
    /// `project_service`.
    pub name: String,
    pub image: String,
    /// `KEY=value` assignments.
    pub env: Vec<String>,
    /// The container port, as `port/tcp`; it is exposed and bound.
    pub port_key: String,
    /// The host address the port is bound on.
    pub host_ip: String,
    /// The host port, in decimal.
    pub host_port: String,
    /// Volume binds; none when there are no volumes.
    pub binds: Option<Vec<String>>,
    /// The command, as a one-element argument list, when one is configured.
    pub cmd: Option<Vec<String>>,
    /// Labels that mark the container as this tool's.
    pub labels: Vec<(String, String)>,
}

/// The label naming the project a container belongs to.
pub open spec fn project_label() -> Seq<char> {
    "envibe.project"@
}

/// The label naming the service a container runs.
pub open spec fn service_label() -> Seq<char> {
    "envibe.service"@
}

/// The creation request for a project's service container bound to `host_port`.
pub fn container_spec(project: &str, service: &str, config: &DockerServiceConfig, host_port: u16) -> (r: ContainerSpec)
    ensures
        r.name@ == container_name_of(project@, service@),
        r.image@ == config.image@,
        r.env@.map_values(|s: String| s@) == env_assignment_seq(config.env.pairs()),
        r.port_key@ == tcp_key(container_port_of(config@)),
        r.host_ip@ == "127.0.0.1"@,
        r.host_port@ == decimal(host_port as nat),
        match r.binds {
            Some(b) => config.volumes@.len() > 0 && b@.map_values(|s: String| s@)
                == config.volumes@.map_values(|v: String| bind_of(project@, v@)),
            None => config.volumes@.len() == 0,
        },
        match r.cmd {
            Some(c) => config.command is Some && c@.len() == 1 && c@[0] == config.command->0,
            None => config.command is None,
        },
        r.labels@.len() == 2,
        r.labels@[0].0@ == project_label() && r.labels@[0].1@ == project@,
        r.labels@[1].0@ == service_label() && r.labels@[1].1@ == service@,
{
    let internal = container_internal_port(config);
    let binds = volume_binds(project, &config.volumes);
    assert(binds@.map_values(|s: String| s@).len() == config.volumes@.map_values(|v: String| bind_of(project@, v@)).len());
    let binds = if binds.len() == 0 {
        None
    } else {
        Some(binds)
    };
    let cmd = match &config.command {
        Some(c) => {
            let mut v: Vec<String> = Vec::new();
            v.push(c.clone());
            Some(v)
        },
        None => None,
    };
    let mut labels: Vec<(String, String)> = Vec::new();
    labels.push((owned("envibe.project"), owned(project)));
    labels.push((owned("envibe.service"), owned(service)));
    ContainerSpec {
        name: container_name(project, service),
        image: config.image.clone(),
        env: env_assignments(&config.env),
        port_key: tcp_port_key(internal),
        host_ip: owned("127.0.0.1"),
        host_port: u64_to_decimal(host_port as u64),
        binds,
        cmd,
        labels,
    }
}

/// A container's state as docker reports it.
#[derive(Debug, Clone, Copy, PartialEq, Eq, Structural)]
pub enum ContainerStatus {
    Empty,
    Created,
    Running,
    Paused,
    Restarting,
    Removing,
    Exited,
    Dead,
}

/// The service status a container state means; an unknown state means stopped.
pub open spec fn status_of_container(s: Option<ContainerStatus>) -> ServiceStatus {
    match s {
        Some(ContainerStatus::Running) => ServiceStatus::Running,
        Some(ContainerStatus::Created) => ServiceStatus::Starting,
        Some(ContainerStatus::Restarting) => ServiceStatus::Starting,
        Some(ContainerStatus::Removing) => ServiceStatus::Stopping,
        Some(ContainerStatus::Paused) => ServiceStatus::Stopped,
        Some(ContainerStatus::Exited) => ServiceStatus::Stopped,
        Some(ContainerStatus::Dead) => ServiceStatus::Error,
        _ => ServiceStatus::Stopped,
    }
}

/// The service status a container state means.
pub fn container_service_status(s: Option<ContainerStatus>) -> (r: ServiceStatus)
    ensures
        r == status_of_container(s),
{
    match s {
        Some(ContainerStatus::Running) => ServiceStatus::Running,
        Some(ContainerStatus::Created) => ServiceStatus::Starting,
        Some(ContainerStatus::Restarting) => ServiceStatus::Starting,
        Some(ContainerStatus::Removing) => ServiceStatus::Stopping,
        Some(ContainerStatus::Paused) => ServiceStatus::Stopped,
        Some(ContainerStatus::Exited) => ServiceStatus::Stopped,
        Some(ContainerStatus::Dead) => ServiceStatus::Error,
        _ => ServiceStatus::Stopped,
    }
}


/// A published port of a listed container.
#[derive(Debug)]
pub struct PortSummary {
    pub private_port: u16,
    pub public_port: Option<u16>,
}

/// A mount of a listed container.
#[derive(Debug)]
pub struct MountSummary {
    /// Whether the mount is a named volume (rather than a bind mount).
    pub is_volume: bool,
    pub name: Option<String>,
    pub source: Option<String>,
    pub destination: Option<String>,
}

/// A container as docker lists it, reduced to what the library reads.
#[derive(Debug)]
pub struct ContainerSummary {
    pub id: Option<String>,
    pub image: Option<String>,
    pub labels: Option<NameMap<String>>,
    pub ports: Option<Vec<PortSummary>>,
    pub mounts: Option<Vec<MountSummary>>,
}

/// The (id, project, service) of a container this tool created: one with an
/// id and both of its labels.
pub open spec fn envibe_entry(c: ContainerSummary) -> Option<(Seq<char>, Seq<char>, Seq<char>)> {
    match (c.id, c.labels) {
        (Some(id), Some(l)) => match (l.lookup(project_label()), l.lookup(service_label())) {
            (Some(p), Some(sv)) => Some((id@, p@, sv@)),
            _ => None,
        },
        _ => None,
    }
}

/// The entries of the listed containers this tool created, in order.
pub open spec fn envibe_entries(cs: Seq<ContainerSummary>) -> Seq<(Seq<char>, Seq<char>, Seq<char>)>
    decreases cs.len(),
{
    if cs.len() == 0 {
        Seq::empty()
    } else {
        let rest = envibe_entries(cs.drop_last());
        match envibe_entry(cs.last()) {
            Some(e) => rest.push(e),
            None => rest,
        }
    }
}

/// An (id, project, service) triple seen over character sequences.
pub open spec fn triple_view(t: (String, String, String)) -> (Seq<char>, Seq<char>, Seq<char>) {
    (t.0@, t.1@, t.2@)
}

/// The (id, project, service) of one listed container, when this tool created it.
pub fn envibe_container(c: &ContainerSummary) -> (r: Option<(String, String, String)>)
    ensures
        match r {
            Some(t) => envibe_entry(*c) == Some(triple_view(t)),
            None => envibe_entry(*c) is None,
        },
{
    match (&c.id, &c.labels) {
        (Some(id), Some(l)) => match (l.get("envibe.project"), l.get("envibe.service")) {
            (Some(p), Some(sv)) => Some((id.clone(), p.clone(), sv.clone())),
            _ => None,
        },
        _ => None,
    }
}

/// The (id, project, service) of each listed container this tool created, in order.
pub fn envibe_containers(cs: &Vec<ContainerSummary>) -> (r: Vec<(String, String, String)>)
    ensures
        r@.map_values(|t: (String, String, String)| triple_view(t)) == envibe_entries(cs@),
{
    let mut r: Vec<(String, String, String)> = Vec::new();
    let mut i: usize = 0;
    while i < cs.len()
        invariant
            i <= cs.len(),
            r@.map_values(|t: (String, String, String)| triple_view(t)) == envibe_entries(cs@.take(i as int)),
        decreases cs.len() - i,
    {
        proof {
            assert(cs@.take(i + 1).drop_last() =~= cs@.take(i as int));
            assert(cs@.take(i + 1).last() == cs@[i as int]);
        }
        let ghost before = r@.map_values(|t: (String, String, String)| triple_view(t));
        match envibe_container(&cs[i]) {
            Some(t) => {
                r.push(t);
                assert(r@.map_values(|t: (String, String, String)| triple_view(t)) =~= before.push(triple_view(t)));
            },
            None => {},
        }
        i = i + 1;
    }
    assert(cs@.take(cs.len() as int) =~= cs@);
    r
}

/// The (container, host) port pairs of the published ports, in order.
pub open spec fn published_ports(ps: Seq<PortSummary>) -> Seq<(u16, u16)>
    decreases ps.len(),
{
    if ps.len() == 0 {
        Seq::empty()
    } else {
        let rest = published_ports(ps.drop_last());
        match ps.last().public_port {
            Some(h) => rest.push((ps.last().private_port, h)),
            None => rest,
        }
    }
}

/// A mount as `source:destination`: a named volume by its name (else its
/// source, else nothing), a bind mount by its source; none without a
/// destination, or for a bind mount without a source.
pub open spec fn mount_text(m: MountSummary) -> Option<Seq<char>> {
    match m.destination {
        None => None,
        Some(d) => {
            let src = if m.is_volume {
                match m.name {
                    Some(n) => Some(n@),
                    None => match m.source {
                        Some(x) => Some(x@),
                        None => Some(Seq::<char>::empty()),
                    },
                }
            } else {
                opt_view(m.source)
            };
            match src {
                Some(x) => Some(x + ":"@ + d@),
                None => None,
            }
        },
    }
}

/// The texts of the mounts that have one, in order.
pub open spec fn mount_texts(ms: Seq<MountSummary>) -> Seq<Seq<char>>
    decreases ms.len(),
{
    if ms.len() == 0 {
        Seq::empty()
    } else {
        let rest = mount_texts(ms.drop_last());
        match mount_text(ms.last()) {
            Some(t) => rest.push(t),
            None => rest,
        }
    }
}

/// A compose container seen over character sequences.
pub struct ComposeContainerView {
    pub id: Seq<char>,
    pub project: Seq<char>,
    pub service: Seq<char>,
    pub image: Seq<char>,
    pub ports: Seq<(u16, u16)>,
    pub volumes: Seq<Seq<char>>,
}

impl View for ComposeContainer {
    type V = ComposeContainerView;

    open spec fn view(&self) -> ComposeContainerView {
        ComposeContainerView {
            id: self.id@,
            project: self.project@,
            service: self.service@,
            image: self.image@,
            ports: self.ports@,
            volumes: self.volumes@.map_values(|v: String| v@),
        }
    }
}

/// The label naming a container's compose project.
pub open spec fn compose_project_label() -> Seq<char> {
    "com.docker.compose.project"@
}

/// The label naming a container's compose service.
pub open spec fn compose_service_label() -> Seq<char> {
    "com.docker.compose.service"@
}

/// The compose container a listed container is: one with an id, an image and
/// both compose labels; missing port and mount lists count as empty.
pub open spec fn compose_entry_of(c: ContainerSummary) -> Option<ComposeContainerView> {
    match (c.id, c.labels, c.image) {
        (Some(id), Some(l), Some(image)) => match (l.lookup(compose_project_label()), l.lookup(compose_service_label())) {
            (Some(p), Some(sv)) => Some(ComposeContainerView {
                id: id@,
                project: p@,
                service: sv@,
                image: image@,
                ports: match c.ports {
                    Some(ps) => published_ports(ps@),
                    None => Seq::empty(),
                },
                volumes: match c.mounts {
                    Some(ms) => mount_texts(ms@),
                    None => Seq::empty(),
                },
            }),
            _ => None,
        },
        _ => None,
    }
}

/// The compose containers among the listed ones, in order.
pub open spec fn compose_entries(cs: Seq<ContainerSummary>) -> Seq<ComposeContainerView>
    decreases cs.len(),
{
    if cs.len() == 0 {
        Seq::empty()
    } else {
        let rest = compose_entries(cs.drop_last());
        match compose_entry_of(cs.last()) {
            Some(e) => rest.push(e),
            None => rest,
        }
    }
}

fn published(ps: &Vec<PortSummary>) -> (r: Vec<(u16, u16)>)
    ensures
        r@ == published_ports(ps@),
{
    let mut r: Vec<(u16, u16)> = Vec::new();
    let mut i: usize = 0;
    while i < ps.len()
        invariant
            i <= ps.len(),
            r@ == published_ports(ps@.take(i as int)),
        decreases ps.len() - i,
    {
        proof {
            assert(ps@.take(i + 1).drop_last() =~= ps@.take(i as int));
            assert(ps@.take(i + 1).last() == ps@[i as int]);
        }
        match ps[i].public_port {
            Some(h) => r.push((ps[i].private_port, h)),
            None => {},
        }
        i = i + 1;
    }
    assert(ps@.take(ps.len() as int) =~= ps@);
    r
}

fn mount_string(m: &MountSummary) -> (r: Option<String>)
    ensures
        match r {
            Some(t) => mount_text(*m) == Some(t@),
            None => mount_text(*m) is None,
        },
{
    match &m.destination {
        None => None,
        Some(d) => {
            let src = if m.is_volume {
                match &m.name {
                    Some(n) => Some(n.clone()),
                    None => match &m.source {
                        Some(x) => Some(x.clone()),
                        None => Some(String::new()),
                    },
                }
            } else {
                match &m.source {
                    Some(x) => Some(x.clone()),
                    None => None,
                }
            };
            match src {
                Some(x) => Some(concat3(x.as_str(), ":", d.as_str())),
                None => None,
            }
        },
    }
}

fn mount_strings(ms: &Vec<MountSummary>) -> (r: Vec<String>)
    ensures
        r@.map_values(|v: String| v@) == mount_texts(ms@),
{
    let mut r: Vec<String> = Vec::new();
    let mut i: usize = 0;
    while i < ms.len()
        invariant
            i <= ms.len(),
            r@.map_values(|v: String| v@) == mount_texts(ms@.take(i as int)),
        decreases ms.len() - i,
    {
        proof {
            assert(ms@.take(i + 1).drop_last() =~= ms@.take(i as int));
            assert(ms@.take(i + 1).last() == ms@[i as int]);
        }
        let ghost before = r@.map_values(|v: String| v@);
        match mount_string(&ms[i]) {
            Some(t) => {
                r.push(t);
                assert(r@.map_values(|v: String| v@) =~= before.push(t@));
            },
            None => {},
        }
        i = i + 1;
    }
    assert(ms@.take(ms.len() as int) =~= ms@);
    r
}

/// The compose container one listed container is, if it is one.
pub fn compose_container(c: &ContainerSummary) -> (r: Option<ComposeContainer>)
    ensures
        match r {
            Some(cc) => compose_entry_of(*c) == Some(cc@),
            None => compose_entry_of(*c) is None,
        },
{
    match (&c.id, &c.labels, &c.image) {
        (Some(id), Some(l), Some(image)) => match (l.get("com.docker.compose.project"), l.get("com.docker.compose.service")) {
            (Some(p), Some(sv)) => {
                let ports = match &c.ports {
                    Some(ps) => published(ps),
                    None => Vec::new(),
                };
                let volumes = match &c.mounts {
                    Some(ms) => mount_strings(ms),
                    None => Vec::new(),
                };
                let cc = ComposeContainer {
                    id: id.clone(),
                    project: p.clone(),
                    service: sv.clone(),
                    image: image.clone(),
                    ports,
                    volumes,
                };
                proof {
                    if c.ports is None {
                        assert(cc.ports@ =~= Seq::<(u16, u16)>::empty());
                    }
                    if c.mounts is None {
                        assert(cc.volumes@.map_values(|v: String| v@) =~= Seq::<Seq<char>>::empty());
                    }
                }
                Some(cc)
            },
            _ => None,
        },
        _ => None,
    }
}

/// The compose containers among the listed ones, in order.
pub fn compose_containers(cs: &Vec<ContainerSummary>) -> (r: Vec<ComposeContainer>)
    ensures
        r@.map_values(|c: ComposeContainer| c@) == compose_entries(cs@),
{
    let mut r: Vec<ComposeContainer> = Vec::new();
    let mut i: usize = 0;
    while i < cs.len()
        invariant
            i <= cs.len(),
            r@.map_values(|c: ComposeContainer| c@) == compose_entries(cs@.take(i as int)),
        decreases cs.len() - i,
    {
        proof {
            assert(cs@.take(i + 1).drop_last() =~= cs@.take(i as int));
            assert(cs@.take(i + 1).last() == cs@[i as int]);
        }
        let ghost before = r@.map_values(|c: ComposeContainer| c@);
        match compose_container(&cs[i]) {
            Some(cc) => {
                let ghost v = cc@;
                r.push(cc);
                assert(r@.map_values(|c: ComposeContainer| c@) =~= before.push(v));
            },
            None => {},
        }
        i = i + 1;
    }
    assert(cs@.take(cs.len() as int) =~= cs@);
    r
}


/// A line without the carriage return that ends it, if any.
pub open spec fn strip_cr(l: Seq<char>) -> Seq<char> {
    if l.len() > 0 && l.last() == '\r' {
        l.drop_last()
    } else {
        l
    }
}

/// A log line tagged with the service it came from: `[service] line`.
pub open spec fn tagged(prefix: Seq<char>, line: Seq<char>) -> Seq<char> {
    "["@ + prefix + "] "@ + line
}

/// The tagged form of a line, or nothing for an empty line.
pub open spec fn tagged_if_nonempty(prefix: Seq<char>, line: Seq<char>) -> Seq<Seq<char>> {
    if line.len() == 0 {
        Seq::empty()
    } else {
        seq![tagged(prefix, line)]
    }
}

/// The non-empty lines of a chunk of container output, tagged. Lines end at
/// `\n`, or at `\r\n` (the `\r` is dropped); a final line needs no ending.
pub open spec fn chunk_log_lines(prefix: Seq<char>, s: Seq<char>) -> Seq<Seq<char>>
    decreases s.len(),
{
    if s.len() == 0 {
        Seq::empty()
    } else {
        match first_index_of(s, '\n') {
            Some(i) => {
                proof {
                    crate::text::lemma_first_index_of_spec(s, '\n');
                }
                tagged_if_nonempty(prefix, strip_cr(s.take(i))) + chunk_log_lines(prefix, s.skip(i + 1))
            },
            None => tagged_if_nonempty(prefix, s),
        }
    }
}

fn tag_line(prefix: &str, line: &Vec<char>) -> (r: String)
    ensures
        r@ == tagged(prefix@, line@),
{
    let l = string_from_chars(line);
    let head = concat3("[", prefix, "] ");
    let r = concat2(head.as_str(), l.as_str());
    assert(r@ =~= tagged(prefix@, line@));
    r
}

/// The log lines a chunk of a container's output becomes: each non-empty
/// line, tagged `[service] line`.
pub fn chunk_lines(prefix: &str, raw: &str) -> (r: Vec<String>)
    ensures
        r@.map_values(|l: String| l@) == chunk_log_lines(prefix@, raw@),
{
    let all = chars_of(raw);
    let mut rest = slice_chars(&all, 0, all.len());
    let mut r: Vec<String> = Vec::new();
    assert(all@.subrange(0, all@.len() as int) =~= raw@);
    while rest.len() > 0
        invariant
            r@.map_values(|l: String| l@) + chunk_log_lines(prefix@, rest@) == chunk_log_lines(prefix@, raw@),
        decreases rest@.len(),
    {
        let ghost before = r@.map_values(|l: String| l@);
        match find_char(&rest, '\n') {
            Some(i) => {
                let mut line = slice_chars(&rest, 0, i);
                let next = slice_chars(&rest, i + 1, rest.len());
                proof {
                    assert(line@ =~= rest@.take(i as int));
                    assert(next@ =~= rest@.skip(i + 1));
                }
                let n = line.len();
                if n > 0 && line[n - 1] == '\r' {
                    line.pop();
                }
                assert(line@ == strip_cr(rest@.take(i as int)));
                if line.len() > 0 {
                    let t = tag_line(prefix, &line);
                    r.push(t);
                    assert(r@.map_values(|l: String| l@) =~= before + seq![t@]);
                } else {
                    assert(r@.map_values(|l: String| l@) =~= before + Seq::<Seq<char>>::empty());
                }
                proof {
                    assert(before + tagged_if_nonempty(prefix@, line@) + chunk_log_lines(prefix@, next@)
                        =~= before + (tagged_if_nonempty(prefix@, line@) + chunk_log_lines(prefix@, next@)));
                }
                rest = next;
            },
            None => {
                if rest.len() > 0 {
                    let t = tag_line(prefix, &rest);
                    r.push(t);
                    assert(r@.map_values(|l: String| l@) =~= before + seq![t@]);
                }
                proof {
                    assert(chunk_log_lines(prefix@, Seq::<char>::empty()) =~= Seq::<Seq<char>>::empty());
                }
                rest = Vec::new();
                assert(r@.map_values(|l: String| l@) + chunk_log_lines(prefix@, rest@) =~= r@.map_values(|l: String| l@));
            },
        }
    }
    assert(chunk_log_lines(prefix@, rest@) =~= Seq::<Seq<char>>::empty());
    assert(r@.map_values(|l: String| l@) + Seq::<Seq<char>>::empty() =~= r@.map_values(|l: String| l@));
    r
}

} // verus!
