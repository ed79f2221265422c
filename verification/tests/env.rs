use envibe::error::EnvibeError;
use envibe::namemap::NameMap;
use envibe::process::{
    display_env, env_read_error, interpolate_env, interpolate_env_map,
    layered_env, parse_env_content, process_env,
};

fn ports(entries: &[(&str, u16)]) -> NameMap<u16> {
    let mut m = NameMap::new();
    for (k, v) in entries {
        m.insert(k.to_string(), *v);
    }
    m
}

fn strings(entries: &[(&str, &str)]) -> NameMap<String> {
    let mut m = NameMap::new();
    for (k, v) in entries {
        m.insert(k.to_string(), v.to_string());
    }
    m
}

fn get(m: &NameMap<String>, k: &str) -> Option<String> {
    m.get(k).cloned()
}

#[test]
fn env_file_lines_are_parsed() {
    let content = "# comment\nDB_URL = postgres://x \n\nQUOTED=\"hello world\"\nSINGLE='a b'\nNOEQUALS\n=nokey\nEMPTY=\n";
    let env = parse_env_content(content);
    assert_eq!(get(&env, "DB_URL"), Some("postgres://x".to_string()));
    assert_eq!(get(&env, "QUOTED"), Some("hello world".to_string()));
    assert_eq!(get(&env, "SINGLE"), Some("a b".to_string()));
    assert_eq!(get(&env, "EMPTY"), Some("".to_string()));
    assert_eq!(get(&env, "NOEQUALS"), None);
    assert_eq!(env.len(), 4);
}

#[test]
fn env_file_later_line_wins() {
    let env = parse_env_content("A=1\nA=2\n");
    assert_eq!(get(&env, "A"), Some("2".to_string()));
    assert_eq!(env.len(), 1);
}

#[test]
fn env_file_with_crlf_lines() {
    let env = parse_env_content("A=1\r\nB=two\r\n");
    assert_eq!(get(&env, "A"), Some("1".to_string()));
    assert_eq!(get(&env, "B"), Some("two".to_string()));
}

#[test]
fn lone_quote_value_is_kept() {
    let env = parse_env_content("A=1\nB=\"\nC = ' \nD=\"\"");
    assert_eq!(get(&env, "B"), Some("\"".to_string()));
    assert_eq!(get(&env, "C"), Some("'".to_string()));
    assert_eq!(get(&env, "D"), Some("".to_string()));
}

#[test]
fn env_read_error_text() {
    match env_read_error("/p/.env", "No such file") {
        EnvibeError::Config(m) => assert_eq!(m, "Failed to read env file /p/.env: No such file"),
        _ => panic!("expected a config error"),
    }
}

#[test]
fn interpolates_port_host_and_url() {
    let p = ports(&[("db", 5433)]);
    let e = NameMap::new();
    assert_eq!(interpolate_env("port=${db.port}", &p, &e).unwrap(), "port=5433");
    assert_eq!(interpolate_env("${db.host}", &p, &e).unwrap(), "localhost");
    assert_eq!(interpolate_env("http://${db.url}/x", &p, &e).unwrap(), "http://localhost:5433/x");
    assert_eq!(
        interpolate_env("postgres://${db.host}:${db.port}/app", &p, &e).unwrap(),
        "postgres://localhost:5433/app"
    );
}

#[test]
fn plain_text_is_unchanged() {
    let p = ports(&[]);
    let e = NameMap::new();
    assert_eq!(interpolate_env("no placeholders $here {x}", &p, &e).unwrap(), "no placeholders $here {x}");
    assert_eq!(interpolate_env("${}", &p, &e).unwrap(), "${}");
}

#[test]
fn environment_placeholders_use_environment_or_stay() {
    let p = ports(&[]);
    let e = strings(&[("HOME", "/home/u")]);
    assert_eq!(interpolate_env("${HOME}/x", &p, &e).unwrap(), "/home/u/x");
    assert_eq!(interpolate_env("${UNSET_VAR}", &p, &e).unwrap(), "${UNSET_VAR}");
}

#[test]
fn missing_service_port_is_an_error() {
    let p = ports(&[]);
    let e = NameMap::new();
    match interpolate_env("${api.port}", &p, &e) {
        Err(EnvibeError::Interpolation(m)) => assert_eq!(m, "Service 'api' not found for port interpolation"),
        _ => panic!("expected an interpolation error"),
    }
    match interpolate_env("${api.url}", &p, &e) {
        Err(EnvibeError::Interpolation(m)) => assert_eq!(m, "Service 'api' not found for URL interpolation"),
        _ => panic!("expected an interpolation error"),
    }
}

#[test]
fn unknown_property_is_an_error() {
    let p = ports(&[("db", 1)]);
    let e = NameMap::new();
    match interpolate_env("${db.user}", &p, &e) {
        Err(EnvibeError::Interpolation(m)) => assert_eq!(m, "Unknown property 'user' for service 'db'"),
        _ => panic!("expected an interpolation error"),
    }
}

#[test]
fn interpolate_map_interpolates_every_value() {
    let env = strings(&[("A", "${db.port}"), ("B", "plain")]);
    let p = ports(&[("db", 7)]);
    let m = interpolate_env_map(&env, &p, &NameMap::new()).unwrap();
    assert_eq!(get(&m, "A"), Some("7".to_string()));
    assert_eq!(get(&m, "B"), Some("plain".to_string()));
}

#[test]
fn interpolate_map_fails_on_any_bad_value() {
    let env = strings(&[("A", "${x.port}")]);
    assert!(interpolate_env_map(&env, &ports(&[]), &NameMap::new()).is_err());
}

#[test]
fn layers_later_wins() {
    let project = Some(strings(&[("A", "project"), ("B", "project")]));
    let service = Some(strings(&[("B", "service"), ("C", "service")]));
    let inline = strings(&[("C", "inline")]);
    let m = layered_env(&project, &service, &inline);
    assert_eq!(get(&m, "A"), Some("project".to_string()));
    assert_eq!(get(&m, "B"), Some("service".to_string()));
    assert_eq!(get(&m, "C"), Some("inline".to_string()));
    assert_eq!(m.len(), 3);
}

#[test]
fn process_env_interpolates_layers() {
    let inline = strings(&[("URL", "http://${web.host}:${web.port}")]);
    let m = process_env(&None, &None, &inline, &ports(&[("web", 3000)]), &NameMap::new()).unwrap();
    assert_eq!(get(&m, "URL"), Some("http://localhost:3000".to_string()));
}

#[test]
fn display_env_falls_back_to_raw_values() {
    let inline = strings(&[("A", "${nope.port}"), ("B", "${db.port}")]);
    let shown = display_env(&None, &None, &inline, &vec![("db".to_string(), 5)], &NameMap::new());
    assert_eq!(get(&shown, "A"), Some("${nope.port}".to_string()));
    assert_eq!(get(&shown, "B"), Some("${db.port}".to_string()));
    let inline = strings(&[("B", "${db.port}")]);
    let shown = display_env(&None, &None, &inline, &vec![("db".to_string(), 5)], &NameMap::new());
    assert_eq!(get(&shown, "B"), Some("5".to_string()));
}
