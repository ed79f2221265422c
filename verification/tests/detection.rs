use envibe::config::{ProjectConfig, ServiceConfig};
use envibe::detect::{
    config_from_compose, detect_dev_command, detect_internal_port, extract_depends_on, extract_env, extract_ports,
    extract_volumes, merge_compose_services, services_from_compose_containers, ProjectMarkers,
};
use envibe::docker::ComposeContainer;
use envibe::namemap::NameMap;
use envibe::yaml::YamlValue;

fn s(x: &str) -> YamlValue {
    YamlValue::String(x.to_string())
}

fn map(entries: Vec<(&str, YamlValue)>) -> YamlValue {
    YamlValue::Mapping(entries.into_iter().map(|(k, v)| (s(k), v)).collect())
}

fn compose_doc() -> YamlValue {
    map(vec![
        ("version", s("3")),
        ("services", map(vec![
            ("db", map(vec![
                ("image", s("postgres:16")),
                ("environment", map(vec![("POSTGRES_USER", s("app")), ("POSTGRES_PASSWORD", s("pw"))])),
                ("volumes", YamlValue::Sequence(vec![s("data:/var/lib/postgresql/data")])),
                ("ports", YamlValue::Sequence(vec![s("5432:5432")])),
            ])),
            ("web", map(vec![
                ("build", s(".")),
                ("depends_on", YamlValue::Sequence(vec![s("db")])),
            ])),
            ("cache", map(vec![
                ("image", s("redis")),
                ("command", s("redis-server --save 60 1")),
                ("environment", YamlValue::Sequence(vec![s("A=1"), s("B=x=y"), s("NOEQ")])),
            ])),
        ])),
    ])
}

#[test]
fn compose_file_gives_docker_services_with_images() {
    let cfg: ProjectConfig = config_from_compose("shop".to_string(), &compose_doc()).unwrap();
    assert_eq!(cfg.name, "shop");
    assert_eq!(cfg.env_file, None);
    assert_eq!(cfg.services.len(), 2);
    match cfg.services.get("db") {
        Some(ServiceConfig::Docker(d)) => {
            assert_eq!(d.image, "postgres:16");
            assert_eq!(d.internal_port, Some(5432));
            assert_eq!(d.env.get("POSTGRES_USER"), Some(&"app".to_string()));
            assert_eq!(d.volumes, vec!["data:/var/lib/postgresql/data".to_string()]);
            assert_eq!(d.ports, vec!["5432:5432".to_string()]);
        }
        _ => panic!("db is a docker service"),
    }
    match cfg.services.get("cache") {
        Some(ServiceConfig::Docker(d)) => {
            assert_eq!(d.command, Some("redis-server --save 60 1".to_string()));
            assert_eq!(d.env.get("B"), Some(&"x=y".to_string()));
            assert_eq!(d.env.len(), 2);
        }
        _ => panic!("cache is a docker service"),
    }
    assert!(cfg.services.get("web").is_none());
}

#[test]
fn compose_file_without_images_gives_nothing() {
    let doc = map(vec![("services", map(vec![("web", map(vec![("build", s("."))]))]))]);
    assert!(config_from_compose("x".to_string(), &doc).is_none());
    assert!(config_from_compose("x".to_string(), &YamlValue::Null).is_none());
}

#[test]
fn compose_entry_fields() {
    let web = map(vec![("depends_on", YamlValue::Sequence(vec![s("db"), s("cache")]))]);
    assert_eq!(extract_depends_on(&web), vec!["db".to_string(), "cache".to_string()]);
    assert!(extract_volumes(&web).is_empty());
    assert!(extract_ports(&web).is_empty());
    let env = extract_env(&map(vec![("environment", map(vec![("K", s("v"))]))]));
    assert_eq!(env.get("K"), Some(&"v".to_string()));
}

#[test]
fn detected_internal_ports() {
    assert_eq!(detect_internal_port("library/httpd"), Some(80));
    assert_eq!(detect_internal_port("APACHE"), Some(80));
    assert_eq!(detect_internal_port("MongoDB"), Some(27017));
    assert_eq!(detect_internal_port("alpine"), None);
}

fn container(project: &str, service: &str, ports: Vec<(u16, u16)>) -> ComposeContainer {
    ComposeContainer {
        id: format!("id-{}", service),
        project: project.to_string(),
        service: service.to_string(),
        image: "postgres:16".to_string(),
        ports,
        volumes: vec!["v:/d".to_string()],
    }
}

#[test]
fn running_compose_containers_become_services() {
    let cs = vec![
        container("my_shop", "db", vec![(5432, 15432)]),
        container("other", "x", vec![]),
        container("MyShop", "cache", vec![]),
    ];
    let found = services_from_compose_containers(&cs, "my-shop");
    assert_eq!(found.len(), 2);
    match found.get("db") {
        Some(ServiceConfig::Compose(c)) => {
            assert_eq!(c.container_id, "id-db");
            assert_eq!(c.host_port, Some(15432));
            assert_eq!(c.internal_port, Some(5432));
            assert_eq!(c.compose_project, "my_shop");
        }
        _ => panic!("db is a compose service"),
    }
    match found.get("cache") {
        Some(ServiceConfig::Compose(c)) => {
            assert_eq!(c.host_port, None);
            assert_eq!(c.internal_port, Some(5432));
        }
        _ => panic!("cache is a compose service"),
    }
}

#[test]
fn merged_compose_services_keep_configured_ones() {
    let mut services = NameMap::new();
    services.insert("db".to_string(), ServiceConfig::Compose(envibe::config::ComposeServiceConfig {
        container_id: "mine".to_string(),
        image: "i".to_string(),
        host_port: None,
        internal_port: None,
        compose_project: "p".to_string(),
        volumes: Vec::new(),
        env: NameMap::new(),
    }));
    let mut cfg = ProjectConfig { name: "shop".to_string(), env_file: None, services };
    let found = services_from_compose_containers(&vec![container("shop", "db", vec![]), container("shop", "cache", vec![])], "shop");
    merge_compose_services(&mut cfg, found);
    match cfg.services.get("db") {
        Some(ServiceConfig::Compose(c)) => assert_eq!(c.container_id, "mine"),
        _ => panic!("db kept"),
    }
    assert!(cfg.services.contains_key("cache"));
}

fn markers() -> ProjectMarkers {
    ProjectMarkers {
        package_scripts: None,
        has_bun_lock: false,
        has_pnpm_lock: false,
        has_yarn_lock: false,
        has_cargo_toml: false,
        has_go_mod: false,
        has_pyproject: false,
        has_setup_py: false,
    }
}

#[test]
fn dev_commands() {
    let mut m = markers();
    m.package_scripts = Some(vec!["build".to_string(), "start".to_string()]);
    m.has_pnpm_lock = true;
    assert_eq!(detect_dev_command(&m).unwrap().command, "pnpm run start");
    m.package_scripts = Some(vec!["dev".to_string()]);
    m.has_bun_lock = true;
    let c = detect_dev_command(&m).unwrap();
    assert_eq!(c.command, "bun run dev");
    assert_eq!(c.working_dir, ".");
    let mut m = markers();
    m.has_cargo_toml = true;
    assert_eq!(detect_dev_command(&m).unwrap().command, "cargo run");
    let mut m = markers();
    m.has_setup_py = true;
    assert_eq!(detect_dev_command(&m).unwrap().command, "python -m main");
    assert!(detect_dev_command(&markers()).is_none());
    let mut m = markers();
    m.package_scripts = Some(vec!["serve".to_string()]);
    assert_eq!(detect_dev_command(&m).unwrap().command, "npm run serve");
}
