use envibe::config::{
    AgentServiceConfig, ComposeServiceConfig, DockerServiceConfig, ProcessServiceConfig, Project, ProjectConfig,
    ServiceConfig, ServiceState, ServiceStatus,
};
use envibe::error::EnvibeError;
use envibe::namemap::NameMap;
use envibe::ports::PortRegistry;
use envibe::server::{
    compose_start_port, docker_config_from_compose, env_sources, find_project, is_agent_service, lookup_service,
    matching_container_ids, plan_stop, register_project, set_service_port, start_ports, unregister_project,
    ApiError, ProjectInfo, ServiceInfo, StopPlan,
};
use envibe::state::{AppState, ProjectRegistry};

fn process(command: &str, env_file: Option<&str>) -> ServiceConfig {
    let mut env = NameMap::new();
    env.insert("X".to_string(), "1".to_string());
    ServiceConfig::Process(ProcessServiceConfig {
        command: command.to_string(),
        working_dir: ".".to_string(),
        env_file: env_file.map(|s| s.to_string()),
        env,
        depends_on: Vec::new(),
    })
}

fn compose(id: &str, host: Option<u16>) -> ComposeServiceConfig {
    ComposeServiceConfig {
        container_id: id.to_string(),
        image: "postgres:16".to_string(),
        host_port: host,
        internal_port: Some(5432),
        compose_project: "shop".to_string(),
        volumes: vec!["data:/d".to_string()],
        env: NameMap::new(),
    }
}

fn docker_service() -> ServiceConfig {
    ServiceConfig::Docker(DockerServiceConfig {
        image: "redis".to_string(),
        env: NameMap::new(),
        volumes: Vec::new(),
        ports: Vec::new(),
        command: None,
        depends_on: Vec::new(),
        internal_port: None,
    })
}

fn agent() -> ServiceConfig {
    ServiceConfig::Agent(AgentServiceConfig {
        command: "codex".to_string(),
        args: Vec::new(),
        working_dir: ".".to_string(),
        env: NameMap::new(),
    })
}

fn shop() -> Project {
    let mut services = NameMap::new();
    services.insert("web".to_string(), process("npm run dev", Some(".env.web")));
    services.insert("db".to_string(), ServiceConfig::Compose(compose("c1", Some(5433))));
    services.insert("cache".to_string(), docker_service());
    services.insert("bot".to_string(), agent());
    let mut p = Project::new("shop".to_string(), "/p/shop".to_string());
    p.config = Some(ProjectConfig { name: "shop".to_string(), env_file: Some(".env".to_string()), services });
    p
}

fn not_found(r: Result<usize, ApiError>) -> String {
    match r {
        Err(ApiError::NotFound(m)) => m,
        _ => panic!("expected not found"),
    }
}

#[test]
fn finds_first_project_by_name() {
    let ps = vec![Project::new("a".to_string(), "/1".to_string()), Project::new("b".to_string(), "/2".to_string()), Project::new("b".to_string(), "/3".to_string())];
    assert_eq!(find_project(&ps, "b"), Some(1));
    assert_eq!(find_project(&ps, "c"), None);
}

#[test]
fn service_lookup_answers() {
    let ps = vec![shop(), Project::new("bare".to_string(), "/p/bare".to_string())];
    assert_eq!(lookup_service(&ps, "shop", "web").ok(), Some(0));
    assert_eq!(not_found(lookup_service(&ps, "nope", "web")), "Project not found");
    assert_eq!(not_found(lookup_service(&ps, "bare", "web")), "Project has no config");
    assert_eq!(not_found(lookup_service(&ps, "shop", "nope")), "Service not found");
}

#[test]
fn start_ports_use_states_then_compose_ports() {
    let p = shop();
    let mut st = AppState::new();
    let mut s = ServiceState::new("cache".to_string());
    s.port = Some(6380);
    st.set_service_state("shop", s);
    let mut s = ServiceState::new("db".to_string());
    s.port = Some(1111);
    st.set_service_state("shop", s);
    let m = start_ports(p.config.as_ref().unwrap(), &st, "shop", "web", 3000);
    assert_eq!(m.get("web"), Some(&3000));
    assert_eq!(m.get("db"), Some(&5433));
    assert_eq!(m.get("cache"), Some(&6380));
    assert_eq!(m.get("bot"), None);
}

#[test]
fn compose_port_fallbacks() {
    assert_eq!(compose_start_port(&Ok(4000), Some(5433)), 4000);
    assert_eq!(compose_start_port(&Err(EnvibeError::PortAllocation("x".to_string())), Some(5433)), 5433);
    assert_eq!(compose_start_port(&Err(EnvibeError::PortAllocation("x".to_string())), None), 0);
}

#[test]
fn compose_service_as_container_config() {
    let d = docker_config_from_compose(&compose("c1", Some(5433)));
    assert_eq!(d.image, "postgres:16");
    assert_eq!(d.volumes, vec!["data:/d".to_string()]);
    assert!(d.ports.is_empty());
    assert_eq!(d.command, None);
    assert_eq!(d.internal_port, Some(5432));
}

#[test]
fn stop_plans() {
    let ps = vec![shop()];
    let mut st = AppState::new();
    assert!(matches!(plan_stop(&ps, &st, "shop", "web"), StopPlan::Process));
    assert!(matches!(plan_stop(&ps, &st, "shop", "db"), StopPlan::FindContainer));
    match plan_stop(&ps, &st, "shop", "bot") {
        StopPlan::Agent(k) => assert_eq!(k, "shop:bot"),
        _ => panic!("expected an agent plan"),
    }
    assert!(matches!(plan_stop(&ps, &st, "shop", "ghost"), StopPlan::Unconfigured));
    let mut s = ServiceState::new("db".to_string());
    s.container_id = Some("c9".to_string());
    st.set_service_state("shop", s);
    match plan_stop(&ps, &st, "shop", "db") {
        StopPlan::Container(id) => assert_eq!(id, "c9"),
        _ => panic!("expected a container plan"),
    }
    assert!(is_agent_service(&ps, "shop", "bot"));
    assert!(!is_agent_service(&ps, "shop", "web"));
}

#[test]
fn matching_containers_in_order() {
    let cs = vec![
        ("1".to_string(), "shop".to_string(), "db".to_string()),
        ("2".to_string(), "blog".to_string(), "db".to_string()),
        ("3".to_string(), "shop".to_string(), "db".to_string()),
    ];
    assert_eq!(matching_container_ids(&cs, "shop", "db"), vec!["1".to_string(), "3".to_string()]);
}

#[test]
fn set_port_requests() {
    let mut reg = PortRegistry::new();
    let mut st = AppState::new();
    match set_service_port(&mut reg, &mut st, "shop", "web", 80, |_p: u16| true) {
        Err(ApiError::BadRequest(m)) => assert_eq!(m, "Port must be between 1024 and 65535"),
        _ => panic!("expected bad request"),
    }
    st.set_service_state("shop", ServiceState::new("web".to_string()));
    assert_eq!(set_service_port(&mut reg, &mut st, "shop", "web", 4000, |_p: u16| true).ok(), Some(4000));
    assert_eq!(st.get_service_state("shop", "web").unwrap().port, Some(4000));
    match set_service_port(&mut reg, &mut st, "shop", "api", 4000, |_p: u16| true) {
        Err(ApiError::Conflict(m)) => assert_eq!(m, "Port allocation failed: Port 4000 is already assigned to shop:web"),
        _ => panic!("expected conflict"),
    }
    match set_service_port(&mut reg, &mut st, "shop", "api", 4001, |_p: u16| false) {
        Err(ApiError::Conflict(m)) => assert_eq!(m, "Port allocation failed: Port 4001 is already in use on the system"),
        _ => panic!("expected conflict"),
    }
    assert!(st.get_service_state("shop", "api").is_none());
}

#[test]
fn project_registration() {
    let mut reg = ProjectRegistry::new();
    assert!(register_project(&mut reg, "/p/shop".to_string()).is_ok());
    match register_project(&mut reg, "/p/shop".to_string()) {
        Err(ApiError::Conflict(m)) => assert_eq!(m, "Project already added"),
        _ => panic!("expected conflict"),
    }
    assert!(unregister_project(&mut reg, "/p/shop").is_ok());
    match unregister_project(&mut reg, "/p/shop") {
        Err(ApiError::NotFound(m)) => assert_eq!(m, "Project not in registry"),
        _ => panic!("expected not found"),
    }
    assert!(reg.paths.is_empty());
}

#[test]
fn env_sources_of_services() {
    let p = shop();
    let s = env_sources(&p, Some("web"));
    assert_eq!(s.project_file, Some("/p/shop/.env".to_string()));
    assert_eq!(s.service_file, Some("/p/shop/.env.web".to_string()));
    assert_eq!(s.inline.get("X"), Some(&"1".to_string()));
    let s = env_sources(&p, Some("db"));
    assert_eq!(s.service_file, None);
    assert!(s.inline.is_empty());
    let s = env_sources(&p, None);
    assert_eq!(s.project_file, Some("/p/shop/.env".to_string()));
    assert!(s.inline.is_empty());
}

#[test]
fn service_infos() {
    let p = shop();
    let mut st = AppState::new();
    let mut s = ServiceState::new("web".to_string());
    s.status = ServiceStatus::Running;
    s.process_id = Some(12);
    st.set_service_state("shop", s);
    let mut reg = PortRegistry::new();
    reg.set_port("shop", "web", 3000, |_p: u16| true).unwrap();
    reg.set_port("shop", "db", 7777, |_p: u16| true).unwrap();
    let info = ProjectInfo::from_project(&p, &st, &reg);
    assert_eq!(info.name, "shop");
    assert_eq!(info.services.len(), 4);
    let web = &info.services[0];
    assert_eq!(web.service_type, "process");
    assert_eq!(web.status, "running");
    assert_eq!(web.port, Some(3000));
    assert_eq!(web.process_id, Some(12));
    let db = &info.services[1];
    assert_eq!(db.service_type, "compose");
    assert_eq!(db.status, "running");
    assert_eq!(db.port, Some(5433));
    assert_eq!(db.container_id, Some("c1".to_string()));
    let bot = ServiceInfo::from_config("bot", &agent());
    assert_eq!(bot.service_type, "agent");
    assert_eq!(bot.status, "stopped");
    assert_eq!(bot.command, Some("codex".to_string()));
}

#[test]
fn recorded_state_is_what_the_api_shows() {
    let p = shop();
    let mut st = AppState::new();
    st.record_running("shop", "cache", Some(6380), Some("abc".to_string()), None);
    st.record_error("shop", "bot", "no such command".to_string());
    let reg = PortRegistry::new();
    let info = ProjectInfo::from_project(&p, &st, &reg);
    let cache = &info.services[2];
    assert_eq!(cache.status, "running");
    assert_eq!(cache.port, Some(6380));
    assert_eq!(cache.container_id, Some("abc".to_string()));
    let bot = &info.services[3];
    assert_eq!(bot.status, "error");
    assert_eq!(bot.error_message, Some("no such command".to_string()));
    let web = &info.services[0];
    assert_eq!(web.status, "stopped");
    assert_eq!(web.port, None);
}

#[test]
fn registry_compares_paths_by_components() {
    let mut reg = ProjectRegistry::new();
    assert!(reg.add("/a/b".to_string()));
    assert!(!reg.add("/a/b/".to_string()));
    assert!(!reg.add("/a//b".to_string()));
    assert!(!reg.add("/a/./b".to_string()));
    assert!(reg.add("a/b".to_string()));
    assert_eq!(reg.paths, vec!["/a/b".to_string(), "a/b".to_string()]);
    assert!(reg.remove("/a/b/"));
    assert_eq!(reg.paths, vec!["a/b".to_string()]);
    assert!(!reg.remove("/a/b"));
}
