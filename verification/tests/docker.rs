use envibe::config::{DockerServiceConfig, ServiceStatus};
use envibe::docker::{
    chunk_lines, compose_containers, container_internal_port, container_name, container_service_status,
    container_spec, env_assignments, envibe_containers, image_internal_port, plan_existing_container,
    tcp_port_key, volume_bind, volume_binds, ContainerStatus, ContainerSummary, ExistingContainerPlan,
    MountSummary, PortSummary,
};
use envibe::namemap::NameMap;

fn docker(image: &str, internal: Option<u16>) -> DockerServiceConfig {
    let mut env = NameMap::new();
    env.insert("POSTGRES_PASSWORD".to_string(), "pw".to_string());
    DockerServiceConfig {
        image: image.to_string(),
        env,
        volumes: vec!["data:/var/lib/postgresql/data".to_string()],
        ports: Vec::new(),
        command: None,
        depends_on: Vec::new(),
        internal_port: internal,
    }
}

#[test]
fn container_names() {
    assert_eq!(container_name("shop", "db"), "shop_db");
}

#[test]
fn internal_ports_from_images() {
    assert_eq!(image_internal_port("Postgres:16"), Some(5432));
    assert_eq!(image_internal_port("bitnami/redis"), Some(6379));
    assert_eq!(image_internal_port("mariadb"), Some(3306));
    assert_eq!(image_internal_port("mongo"), Some(27017));
    assert_eq!(image_internal_port("nginx"), Some(80));
    assert_eq!(image_internal_port("httpd"), None);
    assert_eq!(container_internal_port(&docker("postgres", None)), 5432);
    assert_eq!(container_internal_port(&docker("postgres", Some(6000))), 6000);
    assert_eq!(container_internal_port(&docker("myimage", None)), 8080);
}

#[test]
fn tcp_keys() {
    assert_eq!(tcp_port_key(5432), "5432/tcp");
}

#[test]
fn existing_container_plans() {
    let bound = Some("5433".to_string());
    assert!(plan_existing_container(&bound, true, 5433) == ExistingContainerPlan::Keep);
    assert!(plan_existing_container(&bound, false, 5433) == ExistingContainerPlan::Start);
    assert!(plan_existing_container(&bound, true, 5434) == ExistingContainerPlan::Recreate { stop_first: true });
    assert!(plan_existing_container(&None, false, 5433) == ExistingContainerPlan::Recreate { stop_first: false });
}

#[test]
fn env_assignment_strings() {
    let mut env = NameMap::new();
    env.insert("A".to_string(), "1".to_string());
    env.insert("B".to_string(), "x=y".to_string());
    assert_eq!(env_assignments(&env), vec!["A=1".to_string(), "B=x=y".to_string()]);
}

#[test]
fn volume_binds_prefix_named_volumes() {
    assert_eq!(volume_bind("shop", "data:/var/lib"), "shop_data:/var/lib");
    assert_eq!(volume_bind("shop", "shop_data:/var/lib"), "shop_data:/var/lib");
    assert_eq!(volume_bind("shop", "./src:/app"), "./src:/app");
    assert_eq!(volume_bind("shop", "/abs:/app"), "/abs:/app");
    assert_eq!(volume_bind("shop", "~/x:/app"), "~/x:/app");
    assert_eq!(volume_bind("shop", "anonymous"), "anonymous");
    let once = volume_bind("shop", "data:/d");
    assert_eq!(volume_bind("shop", &once), once);
    assert_eq!(volume_binds("p", &vec!["v:/a".to_string(), "/h:/b".to_string()]), vec!["p_v:/a".to_string(), "/h:/b".to_string()]);
}

#[test]
fn container_creation_request() {
    let spec = container_spec("shop", "db", &docker("postgres:16", None), 5433);
    assert_eq!(spec.name, "shop_db");
    assert_eq!(spec.image, "postgres:16");
    assert_eq!(spec.env, vec!["POSTGRES_PASSWORD=pw".to_string()]);
    assert_eq!(spec.port_key, "5432/tcp");
    assert_eq!(spec.host_ip, "127.0.0.1");
    assert_eq!(spec.host_port, "5433");
    assert_eq!(spec.binds, Some(vec!["shop_data:/var/lib/postgresql/data".to_string()]));
    assert_eq!(spec.cmd, None);
    assert_eq!(spec.labels, vec![
        ("envibe.project".to_string(), "shop".to_string()),
        ("envibe.service".to_string(), "db".to_string()),
    ]);
    let mut c = docker("app", Some(9000));
    c.volumes.clear();
    c.command = Some("serve".to_string());
    let spec = container_spec("shop", "app", &c, 9100);
    assert_eq!(spec.binds, None);
    assert_eq!(spec.cmd, Some(vec!["serve".to_string()]));
    assert_eq!(spec.port_key, "9000/tcp");
}

#[test]
fn container_status_mapping() {
    assert_eq!(container_service_status(Some(ContainerStatus::Running)), ServiceStatus::Running);
    assert_eq!(container_service_status(Some(ContainerStatus::Created)), ServiceStatus::Starting);
    assert_eq!(container_service_status(Some(ContainerStatus::Restarting)), ServiceStatus::Starting);
    assert_eq!(container_service_status(Some(ContainerStatus::Removing)), ServiceStatus::Stopping);
    assert_eq!(container_service_status(Some(ContainerStatus::Paused)), ServiceStatus::Stopped);
    assert_eq!(container_service_status(Some(ContainerStatus::Exited)), ServiceStatus::Stopped);
    assert_eq!(container_service_status(Some(ContainerStatus::Dead)), ServiceStatus::Error);
    assert_eq!(container_service_status(Some(ContainerStatus::Empty)), ServiceStatus::Stopped);
    assert_eq!(container_service_status(None), ServiceStatus::Stopped);
}

fn labels(entries: &[(&str, &str)]) -> NameMap<String> {
    let mut m = NameMap::new();
    for (k, v) in entries {
        m.insert(k.to_string(), v.to_string());
    }
    m
}

#[test]
fn envibe_containers_need_id_and_both_labels() {
    let cs = vec![
        ContainerSummary { id: Some("c1".to_string()), image: None, labels: Some(labels(&[("envibe.project", "shop"), ("envibe.service", "db")])), ports: None, mounts: None },
        ContainerSummary { id: Some("c2".to_string()), image: None, labels: Some(labels(&[("envibe.project", "shop")])), ports: None, mounts: None },
        ContainerSummary { id: None, image: None, labels: Some(labels(&[("envibe.project", "x"), ("envibe.service", "y")])), ports: None, mounts: None },
    ];
    assert_eq!(envibe_containers(&cs), vec![("c1".to_string(), "shop".to_string(), "db".to_string())]);
}

#[test]
fn compose_containers_read_ports_and_mounts() {
    let cs = vec![ContainerSummary {
        id: Some("abc".to_string()),
        image: Some("postgres:16".to_string()),
        labels: Some(labels(&[("com.docker.compose.project", "shop"), ("com.docker.compose.service", "db")])),
        ports: Some(vec![
            PortSummary { private_port: 5432, public_port: Some(5433) },
            PortSummary { private_port: 9999, public_port: None },
        ]),
        mounts: Some(vec![
            MountSummary { is_volume: true, name: Some("shop_data".to_string()), source: Some("/var/lib/docker/x".to_string()), destination: Some("/data".to_string()) },
            MountSummary { is_volume: false, name: None, source: Some("/home/u/src".to_string()), destination: Some("/app".to_string()) },
            MountSummary { is_volume: false, name: None, source: None, destination: Some("/nope".to_string()) },
            MountSummary { is_volume: true, name: None, source: None, destination: Some("/tmp".to_string()) },
        ]),
    }];
    let found = compose_containers(&cs);
    assert_eq!(found.len(), 1);
    assert_eq!(found[0].id, "abc");
    assert_eq!(found[0].project, "shop");
    assert_eq!(found[0].service, "db");
    assert_eq!(found[0].ports, vec![(5432, 5433)]);
    assert_eq!(found[0].volumes, vec!["shop_data:/data".to_string(), "/home/u/src:/app".to_string(), ":/tmp".to_string()]);
    let no_image = vec![ContainerSummary { id: Some("x".to_string()), image: None, labels: Some(labels(&[("com.docker.compose.project", "a"), ("com.docker.compose.service", "b")])), ports: None, mounts: None }];
    assert!(compose_containers(&no_image).is_empty());
}

#[test]
fn log_chunks_become_tagged_lines() {
    assert_eq!(chunk_lines("db", "one\r\ntwo\n\nthree"), vec!["[db] one".to_string(), "[db] two".to_string(), "[db] three".to_string()]);
    assert!(chunk_lines("db", "").is_empty());
    assert!(chunk_lines("db", "\n\n").is_empty());
}
