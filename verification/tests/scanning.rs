use envibe::config::{ComposeServiceConfig, DockerServiceConfig, Project, ProjectConfig, ServiceConfig, ServiceState, ServiceStatus};
use envibe::docker::ComposeContainer;
use envibe::namemap::NameMap;
use envibe::scan::{
    attach_compose_services, compose_file_path, config_exists, config_read_error, docker_compose_exists,
    get_config_path, is_hidden_dir, mark_compose_running, merge_detected, project_name,
    reconcile_scanned_states, service_names, sort_projects, str_lt,
};
use envibe::state::AppState;
use envibe::error::EnvibeError;

fn docker(image: &str) -> ServiceConfig {
    ServiceConfig::Docker(DockerServiceConfig {
        image: image.to_string(),
        env: NameMap::new(),
        volumes: Vec::new(),
        ports: Vec::new(),
        command: None,
        depends_on: Vec::new(),
        internal_port: None,
    })
}

fn compose_cfg(id: &str, host: Option<u16>) -> ServiceConfig {
    ServiceConfig::Compose(ComposeServiceConfig {
        container_id: id.to_string(),
        image: "postgres".to_string(),
        host_port: host,
        internal_port: Some(5432),
        compose_project: "shop".to_string(),
        volumes: Vec::new(),
        env: NameMap::new(),
    })
}

fn config(entries: Vec<(&str, ServiceConfig)>) -> ProjectConfig {
    let mut services = NameMap::new();
    for (k, v) in entries {
        services.insert(k.to_string(), v);
    }
    ProjectConfig { name: "shop".to_string(), env_file: None, services }
}

fn container(project: &str, service: &str) -> ComposeContainer {
    ComposeContainer {
        id: "x".to_string(),
        project: project.to_string(),
        service: service.to_string(),
        image: "postgres".to_string(),
        ports: Vec::new(),
        volumes: Vec::new(),
    }
}

#[test]
fn project_names_from_paths() {
    assert_eq!(project_name("/home/u/projects/shop"), "shop");
    assert_eq!(project_name("/home/u/projects/shop/"), "shop");
    assert_eq!(project_name("/"), "unknown");
    assert!(is_hidden_dir("/home/u/.cache"));
    assert!(!is_hidden_dir("/home/u/shop"));
}

#[test]
fn detected_services_do_not_override_configured() {
    let user = config(vec![("db", docker("postgres:16"))]);
    let detected = config(vec![("db", docker("mysql")), ("cache", docker("redis"))]);
    let merged = merge_detected(Some(user), Some(detected)).unwrap();
    match merged.services.get("db") {
        Some(ServiceConfig::Docker(d)) => assert_eq!(d.image, "postgres:16"),
        _ => panic!("db is configured"),
    }
    assert!(merged.services.contains_key("cache"));
    let only = merge_detected(None, Some(config(vec![("a", docker("x"))]))).unwrap();
    assert!(only.services.contains_key("a"));
    assert!(merge_detected(None, None).is_none());
}

#[test]
fn compose_services_attach_or_create_config() {
    let mut found = NameMap::new();
    found.insert("db".to_string(), compose_cfg("c1", Some(5433)));
    let created = attach_compose_services(None, "shop", found).unwrap();
    assert_eq!(created.name, "shop");
    assert_eq!(created.env_file, None);
    assert!(created.services.contains_key("db"));
    let unchanged = attach_compose_services(None, "shop", NameMap::new());
    assert!(unchanged.is_none());
}

#[test]
fn projects_sorted_by_name_stably() {
    let ps = vec![
        Project::new("web".to_string(), "/1".to_string()),
        Project::new("api".to_string(), "/2".to_string()),
        Project::new("web".to_string(), "/3".to_string()),
        Project::new("Zed".to_string(), "/4".to_string()),
    ];
    let sorted = sort_projects(ps);
    let names: Vec<(&str, &str)> = sorted.iter().map(|p| (p.name.as_str(), p.path.as_str())).collect();
    assert_eq!(names, vec![("Zed", "/4"), ("api", "/2"), ("web", "/1"), ("web", "/3")]);
    assert!(str_lt("Zed", "api"));
    assert!(str_lt("ab", "abc"));
    assert!(!str_lt("abc", "abc"));
}

#[test]
fn scan_reconciles_states() {
    let cfg = config(vec![
        ("db", compose_cfg("c1", Some(5433))),
        ("old", compose_cfg("c2", None)),
        ("cache", docker("redis")),
        ("web", ServiceConfig::Docker(DockerServiceConfig {
            image: "nginx".to_string(),
            env: NameMap::new(),
            volumes: Vec::new(),
            ports: Vec::new(),
            command: None,
            depends_on: Vec::new(),
            internal_port: None,
        })),
    ]);
    let mut st = AppState::new();
    let mut stale = ServiceState::new("cache".to_string());
    stale.status = ServiceStatus::Running;
    stale.container_id = Some("gone".to_string());
    st.set_service_state("shop", stale);
    let compose = vec![container("shop", "db"), container("blog", "old")];
    let envibe = vec![
        ("e1".to_string(), "shop".to_string(), "web".to_string()),
        ("e2".to_string(), "shop".to_string(), "ghost".to_string()),
    ];
    let streams = reconcile_scanned_states(&mut st, "shop", &cfg, &compose, &envibe);
    assert_eq!(streams, vec![("c1".to_string(), "db".to_string()), ("e1".to_string(), "web".to_string())]);
    let db = st.get_service_state("shop", "db").unwrap();
    assert_eq!(db.status, ServiceStatus::Running);
    assert_eq!(db.port, Some(5433));
    assert_eq!(db.container_id, Some("c1".to_string()));
    let old = st.get_service_state("shop", "old").unwrap();
    assert_eq!(old.status, ServiceStatus::Stopped);
    let cache = st.get_service_state("shop", "cache").unwrap();
    assert_eq!(cache.status, ServiceStatus::Stopped);
    assert_eq!(cache.container_id, None);
    let web = st.get_service_state("shop", "web").unwrap();
    assert_eq!(web.status, ServiceStatus::Running);
    assert_eq!(web.container_id, Some("e1".to_string()));
    assert!(st.get_service_state("shop", "ghost").is_none());
}

#[test]
fn compose_services_marked_running() {
    let cfg = config(vec![("db", compose_cfg("c1", Some(5433))), ("cache", docker("redis"))]);
    let mut st = AppState::new();
    mark_compose_running(&mut st, "shop", &cfg);
    let db = st.get_service_state("shop", "db").unwrap();
    assert_eq!(db.status, ServiceStatus::Running);
    assert_eq!(db.port, Some(5433));
    assert!(st.get_service_state("shop", "cache").is_none());
    assert_eq!(service_names(&cfg), vec!["db".to_string(), "cache".to_string()]);
}

#[test]
fn config_and_compose_files_by_preference() {
    let both = |p: &String| p.ends_with("docker-compose.yml") || p.ends_with("docker-compose.yaml");
    assert_eq!(compose_file_path("/p", &both), Some("/p/docker-compose.yml".to_string()));
    let yaml_only = |p: &String| p.ends_with("docker-compose.yaml");
    assert_eq!(compose_file_path("/p", &yaml_only), Some("/p/docker-compose.yaml".to_string()));
    assert!(docker_compose_exists("/p", &yaml_only));
    let none = |_p: &String| false;
    assert!(!docker_compose_exists("/p", &none));
    let yml = |p: &String| p.ends_with(".envibe.yml");
    assert_eq!(get_config_path("/p", &yml), Some("/p/.envibe.yml".to_string()));
    assert!(config_exists("/p", &yml));
    assert!(!config_exists("/p", &none));
}

#[test]
fn config_read_error_text() {
    match config_read_error("denied") {
        EnvibeError::Config(m) => assert_eq!(m, "Failed to read config file: denied"),
        _ => panic!("expected a config error"),
    }
}

#[test]
fn project_names_follow_path_components() {
    assert_eq!(project_name("/p/shop/."), "shop");
    assert_eq!(project_name("/p//shop//"), "shop");
    assert_eq!(project_name("/p/.."), "unknown");
    assert_eq!(project_name("."), "unknown");
    assert_eq!(project_name(""), "unknown");
}
