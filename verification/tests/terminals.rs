use envibe::agent::{agent_exit_lines, agent_key, agent_launch, agent_start_check, agent_stop_result, agent_working_dir, already_running, not_running, AgentExit};
use envibe::config::AgentServiceConfig;
use envibe::error::EnvibeError;
use envibe::namemap::NameMap;
use envibe::terminal::{
    agent_display_name, agent_terminal_name, append_capped, shell_program, shell_terminal_name, terminal_not_found,
    TerminalSessions, TerminalStatus, TerminalType,
};
use envibe::ws::{missing_terminal_text, terminal_action, terminal_closed_text, TerminalAction, TerminalControl, TerminalInput};

#[test]
fn agent_directories() {
    assert_eq!(agent_working_dir(".", "/p/shop"), "/p/shop");
    assert_eq!(agent_working_dir("/tmp/work", "/p/shop"), "/tmp/work");
    assert_eq!(agent_working_dir("sub", "/p/shop"), "/p/shop/sub");
    assert_eq!(agent_key("shop", "bot"), "shop:bot");
}

#[test]
fn agent_launch_settings() {
    let mut env = NameMap::new();
    env.insert("KEY".to_string(), "v".to_string());
    let cfg = AgentServiceConfig {
        command: "codex".to_string(),
        args: vec!["--verbose".to_string()],
        working_dir: "sub".to_string(),
        env,
    };
    let l = agent_launch(&cfg, "/p");
    assert_eq!(l.program, "codex");
    assert_eq!(l.args, vec!["--verbose".to_string()]);
    assert_eq!(l.cwd, "/p/sub");
    assert_eq!(l.env, vec![("KEY".to_string(), "v".to_string()), ("TERM".to_string(), "xterm-256color".to_string())]);
    assert_eq!((l.rows, l.cols), (30, 120));
}

#[test]
fn agent_errors_and_exit_lines() {
    match already_running("shop:bot") {
        EnvibeError::Process(m) => assert_eq!(m, "Agent shop:bot is already running"),
        _ => panic!("expected a process error"),
    }
    match not_running("shop:bot") {
        EnvibeError::Process(m) => assert_eq!(m, "Agent shop:bot is not running"),
        _ => panic!("expected a process error"),
    }
    assert_eq!(agent_exit_lines("shop", "bot", AgentExit::Success), vec![
        "[bot EXIT] Agent exited successfully".to_string(),
        "[__STATUS__] project=shop service=bot status=stopped".to_string(),
    ]);
    assert_eq!(agent_exit_lines("shop", "bot", AgentExit::Failure)[0], "[bot EXIT] Agent exited with error");
    assert_eq!(agent_exit_lines("shop", "bot", AgentExit::WaitFailed), vec![
        "[__STATUS__] project=shop service=bot status=error".to_string(),
    ]);
}

#[test]
fn session_names() {
    assert_eq!(shell_terminal_name(3), "Terminal 3");
    assert_eq!(agent_display_name("codex"), "Codex");
    assert_eq!(agent_display_name(""), "");
    assert_eq!(agent_terminal_name("codex", 2), "Codex 2");
    assert_eq!(shell_program(None), "/bin/bash");
    assert_eq!(shell_program(Some("/bin/zsh".to_string())), "/bin/zsh");
}

#[test]
fn sessions_are_numbered_and_registered() {
    let mut s = TerminalSessions::new();
    let a = s.begin_shell_session("shop", None, "id-a".to_string());
    let b = s.begin_shell_session("shop", Some("snap1".to_string()), "id-b".to_string());
    let c = s.begin_agent_session("shop", None, "codex", "id-c".to_string());
    assert_eq!(a.name, "Terminal 1");
    assert_eq!(b.name, "Terminal 2");
    assert_eq!(c.name, "Codex 1");
    assert_eq!(a.id, "id-a");
    assert_ne!(a.id, b.id);
    assert_eq!(a.status, TerminalStatus::Connected);
    assert_eq!(c.session_type, TerminalType::Agent);
    assert_eq!(s.shell_count(), 2);
    assert_eq!(s.agent_count(), 1);
    assert!(s.get_sessions("shop", None).is_empty());
    let a_id = a.id.clone();
    s.add_session(a);
    s.add_session(b);
    s.add_session(c);
    assert_eq!(s.get_sessions("shop", None).len(), 2);
    assert_eq!(s.get_sessions("shop", Some("snap1")).len(), 1);
    assert!(s.get_sessions("blog", None).is_empty());
    s.remove_session(&a_id);
    assert_eq!(s.get_sessions("shop", None).len(), 1);
}

#[test]
fn saved_sessions_come_back_disconnected() {
    let mut s = TerminalSessions::new();
    let a = s.begin_shell_session("shop", None, "id-a".to_string());
    let mut m = NameMap::new();
    m.insert(a.id.clone(), a);
    let restored = TerminalSessions::from_saved(m);
    let all = restored.get_sessions("shop", None);
    assert_eq!(all.len(), 1);
    assert_eq!(all[0].status, TerminalStatus::Disconnected);
    assert_eq!(restored.shell_count(), 0);
}

#[test]
fn history_keeps_last_bytes() {
    let mut h: Vec<u8> = vec![1, 2, 3];
    append_capped(&mut h, &[4, 5, 6], 4);
    assert_eq!(h, vec![3, 4, 5, 6]);
    append_capped(&mut h, &[7], 10);
    assert_eq!(h, vec![3, 4, 5, 6, 7]);
    match terminal_not_found("t1") {
        EnvibeError::NotFound(m) => assert_eq!(m, "Terminal t1 not found"),
        _ => panic!("expected not found"),
    }
}

fn control(t: &str, cols: Option<u16>, rows: Option<u16>) -> Option<TerminalControl> {
    Some(TerminalControl { msg_type: t.to_string(), cols, rows })
}

#[test]
fn terminal_messages() {
    match terminal_action(TerminalInput::Text { text: "{}".to_string(), control: control("resize", Some(100), Some(40)) }) {
        TerminalAction::Resize { cols, rows } => assert_eq!((cols, rows), (100, 40)),
        _ => panic!("expected resize"),
    }
    assert!(matches!(terminal_action(TerminalInput::Text { text: "{}".to_string(), control: control("resize", Some(1), None) }), TerminalAction::Ignore));
    assert!(matches!(terminal_action(TerminalInput::Text { text: "{}".to_string(), control: control("ping", None, None) }), TerminalAction::Ignore));
    match terminal_action(TerminalInput::Text { text: "ls\r".to_string(), control: None }) {
        TerminalAction::WriteText(t) => assert_eq!(t, "ls\r"),
        _ => panic!("expected text"),
    }
    match terminal_action(TerminalInput::Binary(vec![3])) {
        TerminalAction::WriteBytes(b) => assert_eq!(b, vec![3]),
        _ => panic!("expected bytes"),
    }
    assert!(matches!(terminal_action(TerminalInput::Close), TerminalAction::Stop));
    assert!(matches!(terminal_action(TerminalInput::Failed), TerminalAction::Stop));
    assert!(matches!(terminal_action(TerminalInput::Other), TerminalAction::Ignore));
    assert_eq!(missing_terminal_text("t9"), "\r\nTerminal 't9' not found. Create it first.\r\n");
    assert_eq!(terminal_closed_text(), "\r\n[Terminal closed]\r\n");
}

#[test]
fn agent_running_checks() {
    assert!(agent_start_check(false, "shop:bot").is_ok());
    match agent_start_check(true, "shop:bot") {
        Err(EnvibeError::Process(m)) => assert_eq!(m, "Agent shop:bot is already running"),
        _ => panic!("expected an error"),
    }
    assert!(agent_stop_result(true, "shop:bot").is_ok());
    match agent_stop_result(false, "shop:bot") {
        Err(EnvibeError::Process(m)) => assert_eq!(m, "Agent shop:bot is not running"),
        _ => panic!("expected an error"),
    }
}
