//! Service detection from compose files, running compose containers and project files.
use vstd::prelude::*;
use crate::config::{
    ServiceConfig, ServiceConfigView, DockerServiceConfig, DockerView, ProjectConfig,
    ComposeServiceConfig, ComposeView, ProcessServiceConfig, env_view, strings_view,
    services_view, clone_strings, default_working_dir,
};
use crate::docker::ComposeContainer;
use crate::namemap::{
    NameMap, inserts_map, lemma_empty_view, lemma_map_values_empty, lemma_map_values_insert,
    lemma_empty_iff,
};
use crate::text::{
    owned, is_ascii_text, ascii_lower_text, seq_contains, split_once, split_once_str, str_contains, to_lowercase, lowercase,
    chars_of, str_eq, concat2,
};
use crate::yaml::{YamlValue, yaml_entries, yaml_get, yaml_items, yaml_str};

verus! {

/// Environment entries of a compose `environment:` mapping, in order.
pub open spec fn mapping_env_pairs(m: Seq<(YamlValue, YamlValue)>) -> Seq<(Seq<char>, Seq<char>)>
    decreases m.len(),
{
    if m.len() == 0 {
        Seq::empty()
    } else {
        let rest = mapping_env_pairs(m.drop_last());
        match (yaml_str(m.last().0), yaml_str(m.last().1)) {
            (Some(k), Some(v)) => rest.push((k, v)),
            _ => rest,
        }
    }
}

/// Environment entries of a compose `environment:` list of `KEY=value`, in order.
pub open spec fn sequence_env_pairs(items: Seq<YamlValue>) -> Seq<(Seq<char>, Seq<char>)>
    decreases items.len(),
{
    if items.len() == 0 {
        Seq::empty()
    } else {
        let rest = sequence_env_pairs(items.drop_last());
        match yaml_str(items.last()) {
            Some(s) => match split_once(s, '=') {
                Some((k, v)) => rest.push((k, v)),
                None => rest,
            },
            None => rest,
        }
    }
}

/// Environment entries of a compose `environment:` value.
pub open spec fn env_pairs(environment: YamlValue) -> Seq<(Seq<char>, Seq<char>)> {
    match environment {
        YamlValue::Mapping(m) => mapping_env_pairs(m@),
        YamlValue::Sequence(items) => sequence_env_pairs(items@),
        _ => Seq::empty(),
    }
}

/// The environment a compose service declares.
pub open spec fn compose_env(config: YamlValue) -> Map<Seq<char>, Seq<char>> {
    match yaml_get(config, "environment"@) {
        Some(e) => inserts_map(env_pairs(e)),
        None => Map::empty(),
    }
}

/// The strings among `items`, in order.
pub open spec fn str_list(items: Seq<YamlValue>) -> Seq<Seq<char>>
    decreases items.len(),
{
    if items.len() == 0 {
        Seq::empty()
    } else {
        let rest = str_list(items.drop_last());
        match yaml_str(items.last()) {
            Some(s) => rest.push(s),
            None => rest,
        }
    }
}

/// The strings listed under `key` of a compose service.
pub open spec fn compose_list(config: YamlValue, key: Seq<char>) -> Seq<Seq<char>> {
    match yaml_get(config, key) {
        Some(v) => match yaml_items(v) {
            Some(items) => str_list(items),
            None => Seq::empty(),
        },
        None => Seq::empty(),
    }
}

/// The port an image's service listens on, from its lowercased name.
pub open spec fn internal_port_for(lower: Seq<char>) -> Option<u16> {
    if seq_contains(lower, "postgres"@) {
        Some(5432)
    } else if seq_contains(lower, "redis"@) {
        Some(6379)
    } else if seq_contains(lower, "mysql"@) || seq_contains(lower, "mariadb"@) {
        Some(3306)
    } else if seq_contains(lower, "mongo"@) {
        Some(27017)
    } else if seq_contains(lower, "nginx"@) {
        Some(80)
    } else if seq_contains(lower, "httpd"@) || seq_contains(lower, "apache"@) {
        Some(80)
    } else {
        None
    }
}

/// Detects the internal port based on the image name, ignoring case.
pub fn detect_internal_port(image: &str) -> (r: Option<u16>)
    ensures
        r == internal_port_for(lowercase(image@)),
        is_ascii_text(image@) ==> r == internal_port_for(ascii_lower_text(image@)),
{
    let l = to_lowercase(image);
    let s = l.as_str();
    if str_contains(s, "postgres") {
        Some(5432)
    } else if str_contains(s, "redis") {
        Some(6379)
    } else if str_contains(s, "mysql") || str_contains(s, "mariadb") {
        Some(3306)
    } else if str_contains(s, "mongo") {
        Some(27017)
    } else if str_contains(s, "nginx") {
        Some(80)
    } else if str_contains(s, "httpd") || str_contains(s, "apache") {
        Some(80)
    } else {
        None
    }
}

fn insert_env(env: &mut NameMap<String>, k: String, v: String)
    requires
        old(env).wf(),
    ensures
        final(env).wf(),
        env_view(*final(env)) == env_view(*old(env)).insert(k@, v@),
{
    let ghost kk = k@;
    let ghost vv = v@;
    env.insert(k, v);
    proof {
        lemma_map_values_insert(old(env)@, kk, v, |s: String| s@);
    }
}

/// Environment variables declared by a compose service.
pub fn extract_env(config: &YamlValue) -> (env: NameMap<String>)
    ensures
        env.wf(),
        env_view(env) == compose_env(*config),
{
    let mut env: NameMap<String> = NameMap::new();
    proof {
        lemma_empty_view(&env);
        lemma_map_values_empty(|s: String| s@);
    }
    match config.get("environment") {
        Some(environment) => {
            match environment {
                YamlValue::Mapping(m) => {
                    let mut i: usize = 0;
                    while i < m.len()
                        invariant
                            i <= m.len(),
                            env.wf(),
                            env_view(env) == inserts_map(mapping_env_pairs(m@.take(i as int))),
                        decreases m.len() - i,
                    {
                        proof {
                            assert(m@.take(i + 1).drop_last() =~= m@.take(i as int));
                            assert(m@.take(i + 1).last() == m@[i as int]);
                        }
                        let ghost rest = mapping_env_pairs(m@.take(i as int));
                        if let (Some(k), Some(v)) = (m[i].0.as_str(), m[i].1.as_str()) {
                            insert_env(&mut env, k.clone(), v.clone());
                            proof {
                                assert(mapping_env_pairs(m@.take(i + 1)) == rest.push((k@, v@)));
                                assert(rest.push((k@, v@)).drop_last() =~= rest);
                            }
                        }
                        i = i + 1;
                    }
                    assert(m@.take(m.len() as int) =~= m@);
                },
                YamlValue::Sequence(items) => {
                    let mut i: usize = 0;
                    while i < items.len()
                        invariant
                            i <= items.len(),
                            env.wf(),
                            env_view(env) == inserts_map(sequence_env_pairs(items@.take(i as int))),
                        decreases items.len() - i,
                    {
                        proof {
                            assert(items@.take(i + 1).drop_last() =~= items@.take(i as int));
                            assert(items@.take(i + 1).last() == items@[i as int]);
                        }
                        let ghost rest = sequence_env_pairs(items@.take(i as int));
                        if let Some(s) = items[i].as_str() {
                            if let Some((k, v)) = split_once_str(s.as_str(), '=') {
                                let ghost kv = (k@, v@);
                                insert_env(&mut env, k, v);
                                proof {
                                    assert(sequence_env_pairs(items@.take(i + 1)) == rest.push(kv));
                                    assert(rest.push(kv).drop_last() =~= rest);
                                }
                            }
                        }
                        i = i + 1;
                    }
                    assert(items@.take(items.len() as int) =~= items@);
                },
                _ => {},
            }
        },
        None => {},
    }
    env
}

/// The strings listed under `key` of a compose service.
pub fn extract_list(config: &YamlValue, key: &str) -> (out: Vec<String>)
    ensures
        strings_view(out@) == compose_list(*config, key@),
{
    let mut out: Vec<String> = Vec::new();
    match config.get(key) {
        Some(v) => match v.as_sequence() {
            Some(items) => {
                let mut i: usize = 0;
                while i < items.len()
                    invariant
                        i <= items.len(),
                        strings_view(out@) == str_list(items@.take(i as int)),
                    decreases items.len() - i,
                {
                    proof {
                        assert(items@.take(i + 1).drop_last() =~= items@.take(i as int));
                        assert(items@.take(i + 1).last() == items@[i as int]);
                    }
                    let ghost before = out@;
                    if let Some(s) = items[i].as_str() {
                        out.push(s.clone());
                        assert(strings_view(out@) =~= strings_view(before).push(s@));
                    }
                    i = i + 1;
                }
                assert(items@.take(items.len() as int) =~= items@);
            },
            None => {
                assert(strings_view(out@) =~= Seq::<Seq<char>>::empty());
            },
        },
        None => {
            assert(strings_view(out@) =~= Seq::<Seq<char>>::empty());
        },
    }
    out
}

/// Volume mounts of a compose service.
pub fn extract_volumes(config: &YamlValue) -> (out: Vec<String>)
    ensures
        strings_view(out@) == compose_list(*config, "volumes"@),
{
    extract_list(config, "volumes")
}

/// Port mappings of a compose service.
pub fn extract_ports(config: &YamlValue) -> (out: Vec<String>)
    ensures
        strings_view(out@) == compose_list(*config, "ports"@),
{
    extract_list(config, "ports")
}

/// Services a compose service depends on.
pub fn extract_depends_on(config: &YamlValue) -> (out: Vec<String>)
    ensures
        strings_view(out@) == compose_list(*config, "depends_on"@),
{
    extract_list(config, "depends_on")
}

/// The service name given by a compose key (`unknown` when it is not a string).
pub open spec fn compose_name(key: YamlValue) -> Seq<char> {
    match yaml_str(key) {
        Some(n) => n,
        None => "unknown"@,
    }
}

/// The docker service a compose entry describes, when it names an image.
pub open spec fn compose_entry(config: YamlValue) -> Option<DockerView> {
    match yaml_get(config, "image"@) {
        Some(iv) => match yaml_str(iv) {
            Some(image) => Some(
                DockerView {
                    image,
                    env: compose_env(config),
                    volumes: compose_list(config, "volumes"@),
                    ports: compose_list(config, "ports"@),
                    command: match yaml_get(config, "command"@) {
                        Some(c) => yaml_str(c),
                        None => None,
                    },
                    depends_on: compose_list(config, "depends_on"@),
                    internal_port: internal_port_for(lowercase(image)),
                },
            ),
            None => None,
        },
        None => None,
    }
}

/// The (name, service) entries a compose `services:` mapping yields, in order.
pub open spec fn compose_service_pairs(m: Seq<(YamlValue, YamlValue)>) -> Seq<
    (Seq<char>, ServiceConfigView),
>
    decreases m.len(),
{
    if m.len() == 0 {
        Seq::empty()
    } else {
        let rest = compose_service_pairs(m.drop_last());
        match compose_entry(m.last().1) {
            Some(d) => rest.push((compose_name(m.last().0), ServiceConfigView::Docker(d))),
            None => rest,
        }
    }
}

/// The (name, service) entries of a compose document.
pub open spec fn compose_services(doc: YamlValue) -> Seq<(Seq<char>, ServiceConfigView)> {
    match yaml_get(doc, "services"@) {
        Some(s) => match yaml_entries(s) {
            Some(m) => compose_service_pairs(m),
            None => Seq::empty(),
        },
        None => Seq::empty(),
    }
}

fn docker_from_compose_entry(config: &YamlValue) -> (r: Option<DockerServiceConfig>)
    ensures
        match r {
            Some(d) => compose_entry(*config) == Some(d@) && d.env.wf(),
            None => compose_entry(*config) is None,
        },
{
    match config.get("image") {
        Some(iv) => match iv.as_str() {
            Some(image) => {
                let env = extract_env(config);
                let volumes = extract_volumes(config);
                let ports = extract_ports(config);
                let depends_on = extract_depends_on(config);
                let internal_port = detect_internal_port(image.as_str());
                let command = match config.get("command") {
                    Some(c) => match c.as_str() {
                        Some(s) => Some(s.clone()),
                        None => None,
                    },
                    None => None,
                };
                Some(
                    DockerServiceConfig {
                        image: image.clone(),
                        env,
                        volumes,
                        ports,
                        command,
                        depends_on,
                        internal_port,
                    },
                )
            },
            None => None,
        },
        None => None,
    }
}

/// The project configuration a compose document describes: one docker service
/// per entry of `services:` that names an image, or nothing when there is none.
pub fn config_from_compose(project_name: String, doc: &YamlValue) -> (r: Option<ProjectConfig>)
    ensures
        match r {
            Some(c) => {
                &&& c.name == project_name
                &&& c.env_file is None
                &&& c.services.wf()
                &&& services_view(c.services) == inserts_map(compose_services(*doc))
                &&& compose_services(*doc).len() > 0
            },
            None => compose_services(*doc).len() == 0,
        },
{
    let mut services: NameMap<ServiceConfig> = NameMap::new();
    proof {
        lemma_empty_view(&services);
        lemma_map_values_empty(|c: ServiceConfig| c@);
    }
    let ghost pairs = compose_services(*doc);
    match doc.get("services") {
        Some(sv) => match sv.as_mapping() {
            Some(m) => {
                let mut i: usize = 0;
                while i < m.len()
                    invariant
                        i <= m.len(),
                        services.wf(),
                        services_view(services) == inserts_map(compose_service_pairs(m@.take(i as int))),
                        (services.pairs().len() == 0) <==> (compose_service_pairs(m@.take(i as int)).len() == 0),
                    decreases m.len() - i,
                {
                    proof {
                        assert(m@.take(i + 1).drop_last() =~= m@.take(i as int));
                        assert(m@.take(i + 1).last() == m@[i as int]);
                    }
                    if let Some(d) = docker_from_compose_entry(&m[i].1) {
                        let name = match m[i].0.as_str() {
                            Some(n) => n.clone(),
                            None => owned("unknown"),
                        };
                        let ghost nm = name@;
                        let ghost sc = ServiceConfig::Docker(d);
                        let ghost before = services@;
                        let ghost before_len = services.pairs().len();
                        let ghost rest = compose_service_pairs(m@.take(i as int));
                        services.insert(name, ServiceConfig::Docker(d));
                        proof {
                            assert(compose_service_pairs(m@.take(i + 1)) == rest.push((nm, sc@)));
                            assert(rest.push((nm, sc@)).drop_last() =~= rest);
                            lemma_map_values_insert(before, nm, sc, |c: ServiceConfig| c@);
                            assert(services.pairs().len() >= before_len);
                            if before_len == 0 {
                                assert(services.pairs().len() == 1);
                            }
                        }
                    }
                    i = i + 1;
                }
                assert(m@.take(m.len() as int) =~= m@);
            },
            None => {},
        },
        None => {},
    }
    if services.is_empty() {
        return None;
    }
    Some(ProjectConfig { name: project_name, env_file: None, services })
}


/// `s` without `-`, `_` and spaces.
pub open spec fn strip_separators(s: Seq<char>) -> Seq<char>
    decreases s.len(),
{
    if s.len() == 0 {
        Seq::empty()
    } else {
        let rest = strip_separators(s.drop_last());
        let c = s.last();
        if c == '-' || c == '_' || c == ' ' {
            rest
        } else {
            rest.push(c)
        }
    }
}

fn strip_separators_exec(s: &str) -> (r: Vec<char>)
    ensures
        r@ == strip_separators(s@),
{
    let v = chars_of(s);
    let mut r: Vec<char> = Vec::new();
    let mut i: usize = 0;
    while i < v.len()
        invariant
            i <= v.len(),
            r@ == strip_separators(v@.take(i as int)),
        decreases v.len() - i,
    {
        proof {
            assert(v@.take(i + 1).drop_last() =~= v@.take(i as int));
            assert(v@.take(i + 1).last() == v@[i as int]);
        }
        let c = v[i];
        if !(c == '-' || c == '_' || c == ' ') {
            r.push(c);
        }
        i = i + 1;
    }
    assert(v@.take(v.len() as int) =~= v@);
    r
}

/// A compose container belongs to a project when their names match, or match
/// once lowercased and stripped of `-`, `_` and spaces.
pub open spec fn belongs_to(container_project: Seq<char>, project: Seq<char>) -> bool {
    strip_separators(lowercase(container_project)) == strip_separators(lowercase(project))
        || container_project == project
}

/// The compose service a running container stands for.
pub open spec fn compose_config_of(c: ComposeContainer) -> ComposeView {
    ComposeView {
        container_id: c.id@,
        image: c.image@,
        host_port: if c.ports@.len() > 0 {
            Some(c.ports@[0].1)
        } else {
            None
        },
        internal_port: if c.ports@.len() > 0 {
            Some(c.ports@[0].0)
        } else {
            internal_port_for(lowercase(c.image@))
        },
        compose_project: c.project@,
        volumes: strings_view(c.volumes@),
        env: Map::empty(),
    }
}

/// The (service, config) entries for the containers of `project`, in order.
pub open spec fn container_service_pairs(cs: Seq<ComposeContainer>, project: Seq<char>) -> Seq<
    (Seq<char>, ServiceConfigView),
>
    decreases cs.len(),
{
    if cs.len() == 0 {
        Seq::empty()
    } else {
        let rest = container_service_pairs(cs.drop_last(), project);
        let c = cs.last();
        if belongs_to(c.project@, project) {
            rest.push((c.service@, ServiceConfigView::Compose(compose_config_of(c))))
        } else {
            rest
        }
    }
}

fn vec_chars_eq(a: &Vec<char>, b: &Vec<char>) -> (r: bool)
    ensures
        r == (a@ == b@),
{
    if a.len() != b.len() {
        return false;
    }
    let mut i: usize = 0;
    while i < a.len()
        invariant
            a.len() == b.len(),
            i <= a.len(),
            forall|j: int| 0 <= j < i ==> a@[j] == b@[j],
        decreases a.len() - i,
    {
        if a[i] != b[i] {
            return false;
        }
        i = i + 1;
    }
    assert(a@ =~= b@);
    true
}

/// Compose services for the running containers that belong to `project_name`,
/// so that services are known without a configuration file.
pub fn services_from_compose_containers(containers: &[ComposeContainer], project_name: &str) -> (r:
    NameMap<ServiceConfig>)
    ensures
        r.wf(),
        services_view(r) == inserts_map(container_service_pairs(containers@, project_name@)),
{
    let mut services: NameMap<ServiceConfig> = NameMap::new();
    proof {
        lemma_empty_view(&services);
        lemma_map_values_empty(|c: ServiceConfig| c@);
    }
    let project_lower = to_lowercase(project_name);
    let project_norm = strip_separators_exec(project_lower.as_str());
    let mut i: usize = 0;
    while i < containers.len()
        invariant
            i <= containers@.len(),
            services.wf(),
            project_norm@ == strip_separators(lowercase(project_name@)),
            services_view(services) == inserts_map(
                container_service_pairs(containers@.take(i as int), project_name@),
            ),
        decreases containers@.len() - i,
    {
        proof {
            assert(containers@.take(i + 1).drop_last() =~= containers@.take(i as int));
            assert(containers@.take(i + 1).last() == containers@[i as int]);
        }
        let c = &containers[i];
        let cl = to_lowercase(c.project.as_str());
        let cn = strip_separators_exec(cl.as_str());
        if vec_chars_eq(&cn, &project_norm) || str_eq(c.project.as_str(), project_name) {
            let host_port = if c.ports.len() > 0 {
                Some(c.ports[0].1)
            } else {
                None
            };
            let internal_port = if c.ports.len() > 0 {
                Some(c.ports[0].0)
            } else {
                detect_internal_port(c.image.as_str())
            };
            let env: NameMap<String> = NameMap::new();
            proof {
                lemma_empty_view(&env);
                lemma_map_values_empty(|s: String| s@);
            }
            let cfg = ComposeServiceConfig {
                container_id: c.id.clone(),
                image: c.image.clone(),
                host_port,
                internal_port,
                compose_project: c.project.clone(),
                volumes: clone_strings(&c.volumes),
                env,
            };
            let ghost sc = ServiceConfig::Compose(cfg);
            let ghost before = services@;
            let ghost rest = container_service_pairs(containers@.take(i as int), project_name@);
            assert(sc@ == ServiceConfigView::Compose(compose_config_of(*c)));
            services.insert(c.service.clone(), ServiceConfig::Compose(cfg));
            proof {
                lemma_map_values_insert(before, c.service@, sc, |x: ServiceConfig| x@);
                assert(rest.push((c.service@, sc@)).drop_last() =~= rest);
            }
        }
        i = i + 1;
    }
    assert(containers@.take(containers@.len() as int) =~= containers@);
    services
}

/// Adds compose services to a configuration, keeping the services it already
/// defines (the user's configuration takes precedence).
pub fn merge_compose_services(config: &mut ProjectConfig, compose_services: NameMap<ServiceConfig>)
    requires
        old(config).services.wf(),
        compose_services.wf(),
    ensures
        final(config).services.wf(),
        final(config).services@ == compose_services@.union_prefer_right(old(config).services@),
        final(config).name == old(config).name,
        final(config).env_file == old(config).env_file,
{
    let mut rest = compose_services;
    let ghost c0 = compose_services@;
    proof {
        assert(old(config).services@ =~= c0.restrict(Set::empty()).union_prefer_right(old(config).services@)) by {
            assert(c0.restrict(Set::empty()) =~= Map::empty());
        }
    }
    while !rest.is_empty()
        invariant
            rest.wf(),
            config.services.wf(),
            config.name == old(config).name,
            config.env_file == old(config).env_file,
            forall|k: Seq<char>| #[trigger] rest@.contains_key(k) ==> c0.contains_key(k) && rest@[k] == c0[k],
            c0.restrict(c0.dom().difference(rest@.dom())).union_prefer_right(old(config).services@) == config.services@,
        decreases rest.pairs().len(),
    {
        let ghost rest0 = rest@;
        let ghost svc0 = config.services@;
        let ghost orig = old(config).services@;
        let ghost l0 = c0.restrict(c0.dom().difference(rest0.dom()));
        let (name, service) = rest.take_first();
        let ghost k = name@;
        proof {
            assert(c0.contains_key(k) && c0[k] == service);
            assert(!l0.contains_key(k));
            assert(svc0.contains_key(k) == orig.contains_key(k));
        }
        if !config.services.contains_key(name.as_str()) {
            config.services.insert(name, service);
        }
        proof {
            let l1 = c0.restrict(c0.dom().difference(rest@.dom()));
            assert(l1 =~= l0.insert(k, service));
            if orig.contains_key(k) {
                assert(l1.union_prefer_right(orig) =~= svc0);
            } else {
                assert(l1.union_prefer_right(orig) =~= svc0.insert(k, service));
            }
        }
    }
    proof {
        lemma_empty_iff(&rest);
        assert(c0.restrict(c0.dom().difference(rest@.dom())) =~= c0);
    }
}

/// What is known of a project's files when looking for its dev command.
#[derive(Debug)]
pub struct ProjectMarkers {
    /// Script names of `package.json`, when it exists and parses with a `scripts` object.
    pub package_scripts: Option<Vec<String>>,
    pub has_bun_lock: bool,
    pub has_pnpm_lock: bool,
    pub has_yarn_lock: bool,
    pub has_cargo_toml: bool,
    pub has_go_mod: bool,
    pub has_pyproject: bool,
    pub has_setup_py: bool,
}

/// The command that runs package script `name`, with the package manager
/// whose lock file is present.
pub open spec fn script_command(m: ProjectMarkers, name: Seq<char>) -> Seq<char> {
    if m.has_bun_lock {
        "bun run "@ + name
    } else if m.has_pnpm_lock {
        "pnpm run "@ + name
    } else if m.has_yarn_lock {
        "yarn "@ + name
    } else {
        "npm run "@ + name
    }
}

/// Whether the package scripts include `name`.
pub open spec fn has_script(m: ProjectMarkers, name: Seq<char>) -> bool {
    match m.package_scripts {
        Some(keys) => strings_view(keys@).contains(name),
        None => false,
    }
}

/// The dev command detected for a project.
pub open spec fn dev_command(m: ProjectMarkers) -> Option<Seq<char>> {
    if has_script(m, "dev"@) {
        Some(script_command(m, "dev"@))
    } else if has_script(m, "start"@) {
        Some(script_command(m, "start"@))
    } else if has_script(m, "serve"@) {
        Some(script_command(m, "serve"@))
    } else if m.has_cargo_toml {
        Some("cargo run"@)
    } else if m.has_go_mod {
        Some("go run ."@)
    } else if m.has_pyproject || m.has_setup_py {
        Some("python -m main"@)
    } else {
        None
    }
}

fn strings_contain(keys: &Vec<String>, name: &str) -> (r: bool)
    ensures
        r == strings_view(keys@).contains(name@),
{
    let mut i: usize = 0;
    while i < keys.len()
        invariant
            i <= keys.len(),
            forall|j: int| 0 <= j < i ==> keys@[j]@ != name@,
        decreases keys.len() - i,
    {
        if str_eq(keys[i].as_str(), name) {
            assert(strings_view(keys@)[i as int] == name@);
            return true;
        }
        i = i + 1;
    }
    proof {
        if strings_view(keys@).contains(name@) {
            let j = choose|j: int| 0 <= j < strings_view(keys@).len() && strings_view(keys@)[j] == name@;
            assert(keys@[j]@ == name@);
        }
    }
    false
}

fn script_command_exec(m: &ProjectMarkers, name: &str) -> (r: String)
    ensures
        r@ == script_command(*m, name@),
{
    if m.has_bun_lock {
        concat2("bun run ", name)
    } else if m.has_pnpm_lock {
        concat2("pnpm run ", name)
    } else if m.has_yarn_lock {
        concat2("yarn ", name)
    } else {
        concat2("npm run ", name)
    }
}

fn process_config_for(command: String) -> (c: ProcessServiceConfig)
    ensures
        c.command == command,
        c.working_dir@ == seq!['.'],
        c.env_file is None,
        c.env@ == Map::<Seq<char>, String>::empty(),
        c.env.wf(),
        c.depends_on@.len() == 0,
{
    let env: NameMap<String> = NameMap::new();
    proof {
        lemma_empty_view(&env);
    }
    ProcessServiceConfig {
        command,
        working_dir: default_working_dir(),
        env_file: None,
        env,
        depends_on: Vec::new(),
    }
}

/// The dev command of a project as a process service run from the project
/// directory: a package script (dev, start, serve) with the package manager
/// whose lock file is present, else `cargo run`, `go run .` or `python -m main`.
pub fn detect_dev_command(m: &ProjectMarkers) -> (r: Option<ProcessServiceConfig>)
    ensures
        match r {
            Some(c) => {
                &&& dev_command(*m) == Some(c.command@)
                &&& c.working_dir@ == seq!['.']
                &&& c.env_file is None
                &&& c.env@ == Map::<Seq<char>, String>::empty()
                &&& c.depends_on@.len() == 0
            },
            None => dev_command(*m) is None,
        },
{
    if let Some(keys) = &m.package_scripts {
        if strings_contain(keys, "dev") {
            return Some(process_config_for(script_command_exec(m, "dev")));
        }
        if strings_contain(keys, "start") {
            return Some(process_config_for(script_command_exec(m, "start")));
        }
        if strings_contain(keys, "serve") {
            return Some(process_config_for(script_command_exec(m, "serve")));
        }
    }
    if m.has_cargo_toml {
        return Some(process_config_for(owned("cargo run")));
    }
    if m.has_go_mod {
        return Some(process_config_for(owned("go run .")));
    }
    if m.has_pyproject || m.has_setup_py {
        return Some(process_config_for(owned("python -m main")));
    }
    None
}
} // verus!
