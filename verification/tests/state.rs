use envibe::config::{default_working_dir, AppSettings, PortRanges, Project, ServiceState, ServiceStatus};
use envibe::state::{AppState, ProjectRegistry};
use envibe::worktree::{
    plan_snapshot, new_snapshot, removal_warning, sanitize_snapshot_name, snapshot_branch, snapshot_error,
    worktrees_dir, Snapshot, SnapshotFailure, WorktreeManager,
};
use envibe::error::EnvibeError;

#[test]
fn set_then_get_state() {
    let mut st = AppState::new();
    let mut s = ServiceState::new("web".to_string());
    s.status = ServiceStatus::Running;
    s.port = Some(3000);
    st.set_service_state("shop", s);
    let got = st.get_service_state("shop", "web").unwrap();
    assert_eq!(got.status, ServiceStatus::Running);
    assert_eq!(got.port, Some(3000));
    assert!(st.get_service_state("shop", "db").is_none());
    assert!(st.get_service_state("blog", "web").is_none());
    assert_eq!(st.get_project_services("shop").unwrap().len(), 1);
}

#[test]
fn init_keeps_existing_states() {
    let mut st = AppState::new();
    let mut s = ServiceState::new("web".to_string());
    s.status = ServiceStatus::Running;
    st.set_service_state("shop", s);
    st.init_project_services("shop", vec!["web".to_string(), "db".to_string()]);
    assert_eq!(st.get_service_state("shop", "web").unwrap().status, ServiceStatus::Running);
    assert_eq!(st.get_service_state("shop", "db").unwrap().status, ServiceStatus::Stopped);
}

#[test]
fn state_can_be_changed_in_place() {
    let mut st = AppState::new();
    st.set_service_state("shop", ServiceState::new("web".to_string()));
    if let Some(s) = st.get_service_state_mut("shop", "web") {
        s.port = Some(1234);
    }
    assert_eq!(st.get_service_state("shop", "web").unwrap().port, Some(1234));
    assert!(st.get_service_state_mut("shop", "nope").is_none());
}

#[test]
fn recording_helpers() {
    let mut st = AppState::new();
    st.record_running("shop", "db", Some(5433), Some("c1".to_string()), None);
    let db = st.get_service_state("shop", "db").unwrap();
    assert_eq!(db.status, ServiceStatus::Running);
    assert_eq!(db.container_id, Some("c1".to_string()));
    st.mark_stopping("shop", "db");
    assert_eq!(st.get_service_state("shop", "db").unwrap().status, ServiceStatus::Stopping);
    assert_eq!(st.get_service_state("shop", "db").unwrap().port, Some(5433));
    st.mark_stopping("shop", "none");
    assert!(st.get_service_state("shop", "none").is_none());
    st.record_error("shop", "db", "boom".to_string());
    let db = st.get_service_state("shop", "db").unwrap();
    assert_eq!(db.status, ServiceStatus::Error);
    assert_eq!(db.error_message, Some("boom".to_string()));
    assert_eq!(db.port, None);
    st.record_status("shop", "db", ServiceStatus::Stopped);
    assert_eq!(st.get_service_state("shop", "db").unwrap().error_message, None);
}

#[test]
fn project_registry_add_remove() {
    let mut reg = ProjectRegistry::new();
    assert!(reg.add("/p/a".to_string()));
    assert!(!reg.add("/p/a".to_string()));
    assert!(reg.add("/p/b".to_string()));
    assert!(reg.remove("/p/a"));
    assert!(!reg.remove("/p/a"));
    assert_eq!(reg.paths, vec!["/p/b".to_string()]);
}

#[test]
fn configuration_defaults() {
    assert_eq!(default_working_dir(), ".");
    let p = Project::new("shop".to_string(), "/p/shop".to_string());
    assert!(p.config.is_none());
    assert!(!p.has_docker_compose);
    let s = ServiceState::new("web".to_string());
    assert_eq!(s.status, ServiceStatus::Stopped);
    assert_eq!(s.port, None);
    let r = PortRanges::default();
    assert_eq!(r.postgres, (5432, 5500));
    assert_eq!(r.http, (3000, 3100));
    assert_eq!(ServiceStatus::Running.label(), "Running");
}

#[test]
fn settings_scan_project_folders() {
    let s = AppSettings::with_home(Some("/home/u".to_string()));
    assert_eq!(s.scan_directories, vec![
        "/home/u/developer".to_string(),
        "/home/u/projects".to_string(),
        "/home/u/Developer".to_string(),
        "/home/u/Projects".to_string(),
    ]);
    let s = AppSettings::with_home(None);
    assert_eq!(s.scan_directories[0], "./developer");
    let d = AppSettings::default();
    assert_eq!(d.scan_directories.len(), 4);
}

#[test]
fn snapshot_names() {
    assert_eq!(sanitize_snapshot_name("My Feature/Fix #1"), "my-feature-fix--1");
    assert_eq!(snapshot_branch("x"), "snapshot/x");
    assert_eq!(worktrees_dir("/p"), "/p/.worktrees");
    let plan = plan_snapshot("/p", "Try It");
    assert_eq!(plan.safe_name, "try-it");
    assert_eq!(plan.branch, "snapshot/try-it");
    assert_eq!(plan.worktree_path, "/p/.worktrees/try-it");
    let snap = new_snapshot("Try It", &plan, "s1".to_string(), "2024-01-02T03:04:05+00:00".to_string());
    assert_eq!(snap.id, "s1");
    assert_eq!(snap.created_at, "2024-01-02T03:04:05+00:00");
    assert_eq!(snap.name, "Try It");
    assert_eq!(snap.branch, "snapshot/try-it");
}

fn snap(id: &str, branch: &str) -> Snapshot {
    Snapshot { id: id.to_string(), name: id.to_string(), branch: branch.to_string(), path: format!("/w/{}", id), created_at: "t".to_string() }
}

#[test]
fn snapshot_registry() {
    let mut wm = WorktreeManager::new();
    wm.add_snapshot("shop", snap("a", "snapshot/a"));
    wm.add_snapshot("shop", snap("b", "main"));
    assert_eq!(wm.get_snapshots("shop").len(), 2);
    assert!(wm.get_snapshots("blog").is_empty());
    assert_eq!(wm.get_snapshot("shop", "a").unwrap().path, "/w/a");
    let plan = wm.plan_removal("shop", "a").ok().unwrap();
    assert_eq!(plan.worktree_path, "/w/a");
    assert_eq!(plan.branch_to_delete, Some("snapshot/a".to_string()));
    let plan = wm.plan_removal("shop", "b").ok().unwrap();
    assert_eq!(plan.branch_to_delete, None);
    match wm.plan_removal("shop", "zz") {
        Err(EnvibeError::NotFound(m)) => assert_eq!(m, "Snapshot zz not found"),
        _ => panic!("expected not found"),
    }
    wm.remove_snapshot("shop", "a");
    assert!(wm.get_snapshot("shop", "a").is_none());
}

#[test]
fn snapshot_failures() {
    let e = snapshot_error(&SnapshotFailure::NotARepository { project: "shop".to_string() });
    match e {
        EnvibeError::Git(m) => assert_eq!(m, "Project 'shop' is not a git repository"),
        _ => panic!("expected a git error"),
    }
    match snapshot_error(&SnapshotFailure::WorktreeExists { safe_name: "x".to_string() }) {
        EnvibeError::Git(m) => assert_eq!(m, "Worktree 'x' already exists"),
        _ => panic!("expected a git error"),
    }
    match snapshot_error(&SnapshotFailure::BranchFailed { stderr: "bad".to_string() }) {
        EnvibeError::Git(m) => assert_eq!(m, "Failed to create branch: bad"),
        _ => panic!("expected a git error"),
    }
    assert!(removal_warning("fatal: permission denied"));
    assert!(!removal_warning("fatal: '/w/a' is not a working tree"));
}

#[test]
fn error_messages() {
    assert_eq!(EnvibeError::DockerNotRunning.message(), "Docker daemon not running");
    assert_eq!(EnvibeError::NotFound("x".to_string()).message(), "Not found: x");
    assert_eq!(EnvibeError::Interpolation("y".to_string()).message(), "Variable interpolation error: y");
}

#[test]
fn snapshot_name_with_punctuation() {
    let plan = plan_snapshot("/p", "My Feature!");
    assert_eq!(plan.branch, "snapshot/my-feature-");
    assert_eq!(plan.worktree_path, "/p/.worktrees/my-feature-");
}
