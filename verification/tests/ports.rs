use envibe::config::PortRanges;
use envibe::error::EnvibeError;
use envibe::namemap::NameMap;
use envibe::ports::{service_key, PortRegistry, ServiceType};

fn ranges() -> PortRanges {
    PortRanges::default()
}

#[test]
fn service_key_joins_with_colon() {
    assert_eq!(service_key("shop", "db"), "shop:db");
}

#[test]
fn service_type_from_image_ignores_case() {
    assert_eq!(ServiceType::from_image("POSTGRES:15"), ServiceType::Postgres);
    assert_eq!(ServiceType::from_image("redis:7"), ServiceType::Redis);
    assert_eq!(ServiceType::from_image("mariadb"), ServiceType::Mysql);
    assert_eq!(ServiceType::from_image("mongo"), ServiceType::Mongo);
    assert_eq!(ServiceType::from_image("nginx:latest"), ServiceType::Http);
    assert_eq!(ServiceType::from_image("node:20"), ServiceType::Http);
    assert_eq!(ServiceType::from_image("busybox"), ServiceType::Generic);
}

#[test]
fn service_type_from_service_name() {
    assert_eq!(ServiceType::from_service_name("db"), ServiceType::Postgres);
    assert_eq!(ServiceType::from_service_name("Database"), ServiceType::Postgres);
    assert_eq!(ServiceType::from_service_name("cache"), ServiceType::Redis);
    assert_eq!(ServiceType::from_service_name("web"), ServiceType::Http);
    assert_eq!(ServiceType::from_service_name("api-gateway"), ServiceType::Http);
    assert_eq!(ServiceType::from_service_name("worker"), ServiceType::Generic);
}

#[test]
fn allocation_takes_first_free_port_of_range() {
    let mut reg = PortRegistry::new();
    let p = reg
        .get_or_allocate("shop", "db", &ranges(), ServiceType::Postgres, |p: u16| p != 5432)
        .unwrap();
    assert_eq!(p, 5433);
    assert_eq!(reg.get_port("shop", "db"), Some(5433));
}

#[test]
fn allocation_is_stable_while_port_is_free() {
    let mut reg = PortRegistry::new();
    let a = reg.get_or_allocate("shop", "web", &ranges(), ServiceType::Http, |_p: u16| true).unwrap();
    let b = reg.get_or_allocate("shop", "web", &ranges(), ServiceType::Http, |_p: u16| true).unwrap();
    assert_eq!(a, 3000);
    assert_eq!(a, b);
}

#[test]
fn allocation_never_shares_a_port() {
    let mut reg = PortRegistry::new();
    let a = reg.get_or_allocate("a", "web", &ranges(), ServiceType::Http, |_p: u16| true).unwrap();
    let b = reg.get_or_allocate("b", "web", &ranges(), ServiceType::Http, |_p: u16| true).unwrap();
    assert_ne!(a, b);
    assert_eq!(b, 3001);
}

#[test]
fn allocation_moves_when_assigned_port_is_taken() {
    let mut reg = PortRegistry::new();
    let a = reg.get_or_allocate("a", "web", &ranges(), ServiceType::Http, |_p: u16| true).unwrap();
    assert_eq!(a, 3000);
    let b = reg.get_or_allocate("a", "web", &ranges(), ServiceType::Http, |p: u16| p != 3000).unwrap();
    assert_eq!(b, 3001);
    assert_eq!(reg.get_port("a", "web"), Some(3001));
}

#[test]
fn allocation_fails_when_range_is_full() {
    let mut reg = PortRegistry::new();
    let r = reg.get_or_allocate("a", "db", &ranges(), ServiceType::Postgres, |_p: u16| false);
    match r {
        Err(EnvibeError::PortAllocation(m)) => assert_eq!(m, "No available ports in range 5432-5500"),
        _ => panic!("expected an allocation error"),
    }
    assert_eq!(reg.get_port("a", "db"), None);
}

#[test]
fn set_port_refuses_port_of_other_service() {
    let mut reg = PortRegistry::new();
    reg.set_port("a", "web", 4000, |_p: u16| true).unwrap();
    let r = reg.set_port("b", "web", 4000, |_p: u16| true);
    match r {
        Err(EnvibeError::PortAllocation(m)) => assert_eq!(m, "Port 4000 is already assigned to a:web"),
        _ => panic!("expected a conflict"),
    }
    assert_eq!(reg.get_port("b", "web"), None);
}

#[test]
fn set_port_refuses_port_in_use_on_system() {
    let mut reg = PortRegistry::new();
    let r = reg.set_port("a", "web", 4000, |_p: u16| false);
    match r {
        Err(EnvibeError::PortAllocation(m)) => assert_eq!(m, "Port 4000 is already in use on the system"),
        _ => panic!("expected in-use error"),
    }
}

#[test]
fn set_port_keeps_own_port_even_when_bound() {
    let mut reg = PortRegistry::new();
    reg.set_port("a", "web", 4000, |_p: u16| true).unwrap();
    assert!(reg.set_port("a", "web", 4000, |_p: u16| false).is_ok());
    assert_eq!(reg.get_port("a", "web"), Some(4000));
}

#[test]
fn release_forgets_port() {
    let mut reg = PortRegistry::new();
    reg.set_port("a", "web", 4000, |_p: u16| true).unwrap();
    reg.release("a", "web");
    assert_eq!(reg.get_port("a", "web"), None);
    // the port can be taken by another service now
    assert!(reg.set_port("b", "web", 4000, |_p: u16| true).is_ok());
}

#[test]
fn project_ports_lists_only_that_project() {
    let mut reg = PortRegistry::new();
    reg.set_port("shop", "db", 5432, |_p: u16| true).unwrap();
    reg.set_port("blog", "db", 5433, |_p: u16| true).unwrap();
    reg.set_port("shop", "web", 3000, |_p: u16| true).unwrap();
    let ports = reg.get_project_ports("shop");
    assert_eq!(ports, vec![("db".to_string(), 5432), ("web".to_string(), 3000)]);
}

#[test]
fn get_range_picks_kind_range() {
    let reg = PortRegistry::new();
    assert_eq!(reg.get_range(&ranges(), ServiceType::Redis), (6379, 6450));
    assert_eq!(reg.get_range(&ranges(), ServiceType::Generic), (8000, 9000));
}

#[test]
fn find_available_port_skips_unavailable() {
    let reg = PortRegistry::new();
    let r = reg.find_available_port(8000, 8005, &|p: u16| p >= 8003);
    assert_eq!(r.unwrap(), 8003);
}

#[test]
fn saved_registry_restores_assignments() {
    let mut saved: NameMap<u16> = NameMap::new();
    saved.insert("shop:db".to_string(), 5440);
    let mut reg = PortRegistry::from_saved(saved);
    assert_eq!(reg.get_port("shop", "db"), Some(5440));
    // a restored port is in use by that service
    assert!(reg.set_port("other", "db", 5440, |_p: u16| true).is_err());
}
