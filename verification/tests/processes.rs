use envibe::config::{ProcessServiceConfig, ServiceStatus};
use envibe::error::EnvibeError;
use envibe::namemap::NameMap;
use envibe::process::{
    exit_report, launch_environment, process_working_dir, spawn_error, status_line, stderr_line,
    stdout_line, ExitOutcome, ProcessManager, StartStep,
};

fn config(command: &str, dir: &str) -> ProcessServiceConfig {
    let mut env = NameMap::new();
    env.insert("PORT".to_string(), "1".to_string());
    ProcessServiceConfig {
        command: command.to_string(),
        working_dir: dir.to_string(),
        env_file: None,
        env,
        depends_on: Vec::new(),
    }
}

#[test]
fn working_dir_dot_is_project_dir() {
    assert_eq!(process_working_dir(".", "/p/shop"), "/p/shop");
    assert_eq!(process_working_dir("frontend", "/p/shop"), "/p/shop/frontend");
}

#[test]
fn launch_plan_for_new_process() {
    let mut pm = ProcessManager::new();
    let mut vars = NameMap::new();
    vars.insert("A".to_string(), "x".to_string());
    let mut environment = NameMap::new();
    environment.insert("PATH".to_string(), "/bin".to_string());
    environment.insert("OTHER".to_string(), "no".to_string());
    let step = pm.prepare_start("shop", "web", &config("npm run dev", "."), "/p/shop", &vars, &environment, None, &|_pid: u32| true);
    match step {
        StartStep::Launch(plan) => {
            assert_eq!(plan.shell, "/bin/sh");
            assert_eq!(plan.command, "npm run dev");
            assert_eq!(plan.working_dir, "/p/shop");
            let names: Vec<&str> = plan.env.iter().map(|(k, _)| k.as_str()).collect();
            assert_eq!(names, vec!["PATH", "A", "PORT", "TERM", "FORCE_COLOR"]);
            assert_eq!(plan.env[1].1, "x");
            assert_eq!(plan.env[2].1, "1");
            assert_eq!(plan.env[3].1, "xterm-256color");
            assert_eq!(plan.env[4].1, "1");
        }
        StartStep::AlreadyRunning(_) => panic!("nothing runs yet"),
    }
}

#[test]
fn running_process_is_not_started_twice() {
    let mut pm = ProcessManager::new();
    pm.record_started("shop", "web", 4242);
    let step = pm.prepare_start("shop", "web", &config("x", "."), "/p", &NameMap::new(), &NameMap::new(), Some("/bin/zsh".to_string()), &|_pid: u32| true);
    match step {
        StartStep::AlreadyRunning(pid) => assert_eq!(pid, 4242),
        StartStep::Launch(_) => panic!("process is alive"),
    }
    assert_eq!(pm.pid_of("shop", "web"), Some(4242));
}

#[test]
fn dead_process_record_is_dropped() {
    let mut pm = ProcessManager::new();
    pm.record_started("shop", "web", 4242);
    let step = pm.prepare_start("shop", "web", &config("x", "."), "/p", &NameMap::new(), &NameMap::new(), Some("/bin/zsh".to_string()), &|_pid: u32| false);
    match step {
        StartStep::Launch(plan) => assert_eq!(plan.shell, "/bin/zsh"),
        StartStep::AlreadyRunning(_) => panic!("process is gone"),
    }
    assert_eq!(pm.pid_of("shop", "web"), None);
}

#[test]
fn status_follows_liveness() {
    let mut pm = ProcessManager::new();
    assert_eq!(pm.get_status("a", "b", &|_p: u32| true), ServiceStatus::Stopped);
    pm.record_started("a", "b", 7);
    assert_eq!(pm.get_status("a", "b", &|p: u32| p == 7), ServiceStatus::Running);
    assert_eq!(pm.get_status("a", "b", &|_p: u32| false), ServiceStatus::Stopped);
    assert!(pm.is_running("a", "b", &|_p: u32| true));
}

#[test]
fn take_forgets_and_returns_pid() {
    let mut pm = ProcessManager::new();
    pm.record_started("a", "b", 7);
    assert_eq!(pm.take("a", "b"), Some(7));
    assert_eq!(pm.take("a", "b"), None);
}

#[test]
fn stop_targets_split_keys() {
    let mut pm = ProcessManager::new();
    pm.record_started("shop", "web", 1);
    pm.record_started("blog", "api", 2);
    assert_eq!(
        pm.stop_targets(),
        vec![("shop".to_string(), "web".to_string()), ("blog".to_string(), "api".to_string())]
    );
}

#[test]
fn exit_reports() {
    let ok = exit_report("shop", "web", &ExitOutcome::Success);
    assert!(!ok.is_error);
    assert_eq!(ok.message, "[web EXIT] Process exited successfully");
    assert_eq!(ok.status_line, "[__STATUS__] project=shop service=web status=stopped");
    let code = exit_report("shop", "web", &ExitOutcome::Failure { code: Some(-3) });
    assert!(code.is_error);
    assert_eq!(code.message, "[web EXIT] Process exited with code -3");
    assert_eq!(code.status_line, "[__STATUS__] project=shop service=web status=error");
    let sig = exit_report("shop", "web", &ExitOutcome::Failure { code: None });
    assert_eq!(sig.message, "[web EXIT] Process exited with code unknown");
    let wait = exit_report("shop", "web", &ExitOutcome::WaitFailed { message: "boom".to_string() });
    assert_eq!(wait.message, "[web EXIT] Process error: boom");
}

#[test]
fn output_lines_are_tagged() {
    assert_eq!(stdout_line("web", "ready"), "[web] ready");
    assert_eq!(stderr_line("web", "oops"), "[web ERR] oops");
    assert_eq!(status_line("p", "s", "stopped"), "[__STATUS__] project=p service=s status=stopped");
}

#[test]
fn spawn_error_text() {
    match spawn_error("npm start", "not found") {
        EnvibeError::Process(m) => assert_eq!(m, "Failed to spawn process 'npm start': not found"),
        _ => panic!("expected a process error"),
    }
}

#[test]
fn launch_environment_skips_unset_variables() {
    let env = launch_environment(&NameMap::new(), &NameMap::new(), &NameMap::new());
    assert_eq!(env, vec![
        ("TERM".to_string(), "xterm-256color".to_string()),
        ("FORCE_COLOR".to_string(), "1".to_string()),
    ]);
}

#[test]
fn launch_environment_puts_own_variables_as_written_last() {
    let mut vars = NameMap::new();
    vars.insert("URL".to_string(), "localhost:3000".to_string());
    let mut own = NameMap::new();
    own.insert("URL".to_string(), "${web.url}".to_string());
    let env = launch_environment(&NameMap::new(), &vars, &own);
    assert_eq!(env, vec![
        ("URL".to_string(), "localhost:3000".to_string()),
        ("URL".to_string(), "${web.url}".to_string()),
        ("TERM".to_string(), "xterm-256color".to_string()),
        ("FORCE_COLOR".to_string(), "1".to_string()),
    ]);
}
