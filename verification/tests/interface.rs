use envibe::config::{AppSettings, ComposeServiceConfig, DockerServiceConfig, ProcessServiceConfig, Project, ProjectConfig, ServiceConfig, ServiceState, ServiceStatus};
use envibe::display::{
    console_start, console_title, help_lines, port_suffix, project_indicator, scroll_percent, services_placeholder,
    services_title, status_icon, type_indicator, HelpLine,
};
use envibe::namemap::NameMap;
use envibe::ports::PortRegistry;
use envibe::state::AppState;
use envibe::tui::{
    classify_log, clock_text, contains_error_ci, gather_project, notice, registry_start_ports, start_batches, App, Command, Key,
    LogEntry, LogKind, Notice, Panel, StartAllRun, StartAllStep, ToggleAction, LOG_LIMIT, LOG_TRIM,
};

fn process() -> ServiceConfig {
    ServiceConfig::Process(ProcessServiceConfig {
        command: "npm start".to_string(),
        working_dir: ".".to_string(),
        env_file: None,
        env: NameMap::new(),
        depends_on: Vec::new(),
    })
}

fn docker() -> ServiceConfig {
    ServiceConfig::Docker(DockerServiceConfig {
        image: "redis".to_string(),
        env: NameMap::new(),
        volumes: Vec::new(),
        ports: Vec::new(),
        command: None,
        depends_on: Vec::new(),
        internal_port: None,
    })
}

fn compose(host: Option<u16>) -> ServiceConfig {
    ServiceConfig::Compose(ComposeServiceConfig {
        container_id: "c1".to_string(),
        image: "postgres".to_string(),
        host_port: host,
        internal_port: None,
        compose_project: "shop".to_string(),
        volumes: Vec::new(),
        env: NameMap::new(),
    })
}

fn project(name: &str, services: Vec<(&str, ServiceConfig)>) -> Project {
    let mut m = NameMap::new();
    for (k, v) in services {
        m.insert(k.to_string(), v);
    }
    let mut p = Project::new(name.to_string(), format!("/p/{}", name));
    p.config = Some(ProjectConfig { name: name.to_string(), env_file: None, services: m });
    p
}

fn app() -> App {
    let mut a = App::new("/data".to_string(), AppState::new(), PortRegistry::new(), AppSettings::with_home(None));
    a.install_projects(vec![
        project("web", vec![("api", process()), ("cache", docker()), ("db", compose(Some(5433)))]),
        Project::new("empty".to_string(), "/p/empty".to_string()),
    ]);
    a
}

#[test]
fn panels_cycle() {
    assert_eq!(Panel::Projects.next(), Panel::Services);
    assert_eq!(Panel::Console.next(), Panel::Projects);
    assert_eq!(Panel::Projects.prev(), Panel::Console);
    for p in [Panel::Projects, Panel::Services, Panel::Console] {
        assert_eq!(p.next().prev(), p);
        assert_eq!(p.next().next().next(), p);
    }
}

#[test]
fn log_lines_are_classified() {
    assert_eq!(classify_log("[web ERR] failed"), LogKind::Error);
    assert_eq!(classify_log("Connection ERROR occurred"), LogKind::Error);
    assert_eq!(classify_log("no errors here"), LogKind::Error);
    assert_eq!(classify_log("[web] ready"), LogKind::Info);
    assert_eq!(classify_log("plain"), LogKind::Normal);
    assert!(contains_error_ci("eRrOr"));
    assert!(!contains_error_ci("err"));
    assert!(!contains_error_ci(""));
    let e = LogEntry::new("[x] y".to_string());
    assert_eq!(e.kind, LogKind::Info);
}

#[test]
fn new_interface_state() {
    let a = App::new("/data".to_string(), AppState::new(), PortRegistry::new(), AppSettings::with_home(None));
    assert_eq!(a.focused_panel, Panel::Projects);
    assert!(a.follow_logs);
    assert!(a.selected_project.is_none());
    let a = app();
    assert_eq!(a.projects[0].name, "empty");
    assert_eq!(a.selected_project, Some(0));
}

#[test]
fn navigation_wraps() {
    let mut a = app();
    a.navigate_down();
    assert_eq!(a.selected_project, Some(1));
    a.navigate_down();
    assert_eq!(a.selected_project, Some(0));
    a.navigate_up();
    assert_eq!(a.selected_project, Some(1));
    assert_eq!(a.current_project().unwrap().name, "web");
    a.select_project();
    assert_eq!(a.focused_panel, Panel::Services);
    assert_eq!(a.selected_service, Some(0));
    assert_eq!(a.current_service_name(), Some("api".to_string()));
    a.navigate_up();
    assert_eq!(a.current_service_name(), Some("db".to_string()));
}

#[test]
fn opening_project_without_config_does_nothing() {
    let mut a = app();
    a.select_project();
    assert_eq!(a.focused_panel, Panel::Projects);
}

#[test]
fn console_scrolling() {
    let mut a = app();
    a.focused_panel = Panel::Console;
    a.navigate_down();
    assert_eq!(a.log_scroll, 0);
    a.page_down();
    assert!(!a.follow_logs);
    assert_eq!(a.log_scroll, 20);
    a.navigate_down();
    assert_eq!(a.log_scroll, 21);
    a.page_up();
    a.page_up();
    assert_eq!(a.log_scroll, 0);
    a.toggle_follow();
    assert!(a.follow_logs);
}

#[test]
fn keys() {
    let mut a = app();
    assert!(a.handle_key(Key::Char { c: '?', ctrl: false }).is_none());
    assert!(a.show_help);
    a.handle_key(Key::Tab);
    assert_eq!(a.focused_panel, Panel::Projects);
    a.handle_key(Key::Esc);
    assert!(!a.show_help);
    a.handle_key(Key::Char { c: 'j', ctrl: false });
    assert_eq!(a.selected_project, Some(1));
    a.handle_key(Key::Enter);
    assert_eq!(a.focused_panel, Panel::Services);
    assert!(a.handle_key(Key::Char { c: ' ', ctrl: false }) == Some(Command::ToggleService));
    assert!(a.handle_key(Key::Char { c: 'r', ctrl: false }) == Some(Command::RestartService));
    assert!(a.handle_key(Key::Char { c: 'a', ctrl: false }) == Some(Command::StartAll));
    assert!(a.handle_key(Key::Char { c: 's', ctrl: false }) == Some(Command::StopAll));
    a.handle_key(Key::Char { c: 'l', ctrl: false });
    assert_eq!(a.focused_panel, Panel::Console);
    a.push_log("x".to_string());
    a.handle_key(Key::Char { c: 'c', ctrl: false });
    assert!(a.logs.is_empty());
    assert!(!a.should_quit);
    a.handle_key(Key::Char { c: 'c', ctrl: true });
    assert!(a.should_quit);
    let mut b = app();
    b.handle_key(Key::BackTab);
    assert_eq!(b.focused_panel, Panel::Console);
    b.handle_key(Key::Char { c: 'q', ctrl: false });
    assert!(b.should_quit);
}

#[test]
fn console_keeps_bounded_history() {
    let mut a = app();
    for i in 0..(LOG_LIMIT + 1) {
        a.push_log(format!("line {}", i));
    }
    assert_eq!(a.logs.len(), LOG_LIMIT + 1 - LOG_TRIM);
    assert_eq!(a.logs[0].text, format!("line {}", LOG_TRIM));
    a.log((9, 5, 7), "hello");
    assert_eq!(a.logs[a.logs.len() - 1].text, "[09:05:07] hello");
    a.clear_logs();
    assert!(a.logs.is_empty());
}

#[test]
fn toggling_depends_on_status() {
    let mut a = app();
    a.navigate_down();
    a.select_project();
    let plan = a.toggle_plan().unwrap();
    assert_eq!(plan.0, "api");
    assert!(plan.1 == ToggleAction::Start);
    a.state.record_running("web", "api", None, None, Some(3));
    assert!(a.toggle_plan().unwrap().1 == ToggleAction::Stop);
    a.state.record_status("web", "api", ServiceStatus::Starting);
    assert!(a.toggle_plan().is_none());
    let data = a.service_data();
    assert_eq!(data.len(), 3);
    assert_eq!(data[0].name, "api");
    assert_eq!(data[0].state.as_ref().unwrap().status, ServiceStatus::Starting);
    assert!(data[1].state.is_none());
}

#[test]
fn start_order_and_ports() {
    let p = project("web", vec![("api", process()), ("cache", docker()), ("db", compose(Some(5433))), ("ui", process())]);
    let cfg = p.config.as_ref().unwrap();
    let b = start_batches(cfg);
    assert_eq!(b.compose, vec!["db".to_string()]);
    assert_eq!(b.docker, vec!["cache".to_string()]);
    assert_eq!(b.process, vec!["api".to_string(), "ui".to_string()]);
    let mut reg = PortRegistry::new();
    reg.set_port("web", "cache", 6400, |_p: u16| true).unwrap();
    let m = registry_start_ports(cfg, &reg, "web", "api", 3000);
    assert_eq!(m.get("cache"), Some(&6400));
    assert_eq!(m.get("db"), Some(&5433));
    assert_eq!(m.get("api"), Some(&3000));
    assert_eq!(m.get("ui"), None);
}

#[test]
fn gathered_project_states() {
    let mut st = AppState::new();
    let parsed = project("web", vec![("api", process())]).config;
    let mut found = NameMap::new();
    found.insert("db".to_string(), compose(Some(5433)));
    let cfg = gather_project(&mut st, "web", parsed, None, found).unwrap();
    assert!(cfg.services.contains_key("api"));
    assert!(cfg.services.contains_key("db"));
    assert_eq!(st.get_service_state("web", "api").unwrap().status, ServiceStatus::Stopped);
    let db: &ServiceState = st.get_service_state("web", "db").unwrap();
    assert_eq!(db.status, ServiceStatus::Running);
    assert_eq!(db.port, Some(5433));
}

#[test]
fn notices() {
    assert_eq!(notice(&Notice::Starting { service: "api".to_string() }), "Starting api...");
    assert_eq!(notice(&Notice::StartedOnPort { service: "db".to_string(), port: 5433 }), "db started on port 5433");
    assert_eq!(notice(&Notice::StartedWithPid { service: "api".to_string(), pid: 42 }), "api started (PID: 42)");
    assert_eq!(notice(&Notice::ComposeAttached { service: "db".to_string(), port: Some(5433) }), "db (compose) on port 5433 - streaming logs");
    assert_eq!(notice(&Notice::ComposeAttached { service: "db".to_string(), port: None }), "db (compose) - streaming logs");
    assert_eq!(notice(&Notice::ComposeManaged { service: "db".to_string() }), "db is managed by docker compose - use 'docker compose down' to stop");
    assert_eq!(notice(&Notice::DockerUnavailable), "Docker is not available");
    assert_eq!(notice(&Notice::CommandFailed { error: "x".to_string() }), "Error: x");
}

#[test]
fn panel_texts() {
    assert_eq!(status_icon(ServiceStatus::Running), "▶");
    assert_eq!(status_icon(ServiceStatus::Error), "✗");
    assert_eq!(type_indicator(&process()), "⚡");
    assert_eq!(type_indicator(&docker()), "🐳");
    assert_eq!(project_indicator(&project("a", vec![])), "●");
    let mut bare = Project::new("b".to_string(), "/b".to_string());
    assert_eq!(project_indicator(&bare), " ");
    bare.has_docker_compose = true;
    assert_eq!(project_indicator(&bare), "○");
    assert_eq!(port_suffix(Some(80)), " (80)");
    assert_eq!(port_suffix(None), "");
    assert_eq!(services_title(Some("shop")), " shop - Services ");
    assert_eq!(services_title(None), " Services ");
    assert_eq!(services_placeholder(false), "Select a project");
    assert_eq!(console_title(false), " Console ");
}

#[test]
fn console_window() {
    assert_eq!(console_start(100, 10, true, 0), 90);
    assert_eq!(console_start(100, 10, false, 30), 30);
    assert_eq!(console_start(100, 10, false, 95), 90);
    assert_eq!(console_start(5, 10, true, 3), 0);
    assert_eq!(scroll_percent(90, 10, 100), 100);
    assert_eq!(scroll_percent(40, 10, 100), 50);
    assert_eq!(scroll_percent(0, 10, 5), 100);
}

#[test]
fn help_text() {
    let lines = help_lines();
    assert_eq!(lines.len(), 20);
    match &lines[1] {
        HelpLine::Binding { keys, action } => {
            assert_eq!(keys, "  q, Ctrl+C  ");
            assert_eq!(action, "Quit application");
        }
        _ => panic!("expected a binding"),
    }
    assert!(matches!(&lines[4], HelpLine::Blank));
    assert!(matches!(&lines[0], HelpLine::Heading(h) if h == "Global"));
}

#[test]
fn clock_text_pads_to_two_digits() {
    assert_eq!(clock_text((0, 0, 0)), "00:00:00");
    assert_eq!(clock_text((23, 59, 9)), "23:59:09");
}

fn start_all_config() -> ProjectConfig {
    let mut services = NameMap::new();
    services.insert("web".to_string(), ServiceConfig::Process(ProcessServiceConfig {
        command: "npm run dev".to_string(),
        working_dir: ".".to_string(),
        env_file: None,
        env: NameMap::new(),
        depends_on: Vec::new(),
    }));
    services.insert("cache".to_string(), ServiceConfig::Docker(DockerServiceConfig {
        image: "redis".to_string(),
        env: NameMap::new(),
        volumes: Vec::new(),
        ports: Vec::new(),
        command: None,
        depends_on: Vec::new(),
        internal_port: None,
    }));
    ProjectConfig { name: "shop".to_string(), env_file: None, services }
}

fn step_name(s: StartAllStep) -> String {
    match s {
        StartAllStep::Start(n) => n,
        StartAllStep::Pause => "<pause>".to_string(),
        StartAllStep::Finish => "<finish>".to_string(),
    }
}

#[test]
fn start_all_runs_containers_then_pause_then_processes() {
    let mut run = StartAllRun::new(&start_all_config());
    let steps: Vec<String> = (0..4).map(|_| step_name(run.next())).collect();
    assert_eq!(steps, vec!["cache", "<pause>", "web", "<finish>"]);
}

#[test]
fn start_all_ends_at_first_failure() {
    let mut run = StartAllRun::new(&start_all_config());
    assert_eq!(step_name(run.next()), "cache");
    run.failed();
    assert_eq!(step_name(run.next()), "<finish>");
    assert_eq!(step_name(run.next()), "<finish>");
}
