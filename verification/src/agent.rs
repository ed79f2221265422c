//! Agent services: interactive commands run in a pseudo-terminal. What the
//! library decides about starting, addressing and reporting on them.
use vstd::prelude::*;
use crate::config::{AgentServiceConfig, joined_path, path_join};
use crate::error::EnvibeError;
use crate::namemap::NameMap;
use crate::ports::{key_of, service_key};
use crate::process::{pair_view, settings_of, status_text, status_line};
use crate::text::{concat2, concat3, owned, str_eq};

verus! {

/// Whether a path is absolute on Unix: it starts at the root `/`.
pub open spec fn absolute(path: Seq<char>) -> bool {
    path.len() > 0 && path[0] == '/'
}

/// std's `Path::is_absolute` on a path held as a string. Its documentation
/// says that on Unix a path is absolute when it starts with the root; the
/// program built on this library runs on Unix only.
#[verifier::external_body]
fn path_is_absolute(path: &str) -> (r: bool)
    ensures
        r == absolute(path@),
{
    std::path::Path::new(path).is_absolute()
}

/// Where an agent runs: the project directory for `.`, an absolute directory
/// as it is, else the directory joined onto the project's.
pub open spec fn agent_dir_of(config_dir: Seq<char>, project_path: Seq<char>) -> Seq<char> {
    if config_dir == seq!['.'] {
        project_path
    } else if absolute(config_dir) {
        config_dir
    } else {
        joined_path(project_path, config_dir)
    }
}

/// The directory an agent service runs in.
pub fn agent_working_dir(config_dir: &str, project_path: &str) -> (r: String)
    ensures
        r@ == agent_dir_of(config_dir@, project_path@),
{
    proof {
        reveal_strlit(".");
        assert("."@ =~= seq!['.']);
    }
    if str_eq(config_dir, ".") {
        owned(project_path)
    } else if path_is_absolute(config_dir) {
        owned(config_dir)
    } else {
        path_join(project_path, config_dir)
    }
}

/// The key an agent is known by: `project:service`.
pub fn agent_key(project: &str, service: &str) -> (r: String)
    ensures
        r@ == key_of(project@, service@),
{
    service_key(project, service)
}

/// How to spawn an agent: the program with its arguments, in a directory,
/// with environment settings applied in order.
#[derive(Debug)]
pub struct AgentLaunch {
    pub program: String,
    pub args: Vec<String>,
    pub cwd: String,
    pub env: Vec<(String, String)>,
    /// Terminal size: rows, then columns.
    pub rows: u16,
    pub cols: u16,
}

/// The environment settings of an agent: its configured variables in entry
/// order, then `TERM`.
pub open spec fn agent_settings(env: NameMap<String>) -> Seq<(Seq<char>, Seq<char>)> {
    settings_of(env.pairs()) + seq![("TERM"@, "xterm-256color"@)]
}

/// How an agent service is spawned: its command and arguments, in its
/// working directory, with its variables and `TERM`, on a 30 by 120 terminal.
pub fn agent_launch(config: &AgentServiceConfig, project_path: &str) -> (r: AgentLaunch)
    ensures
        r.program == config.command,
        r.args@ == config.args@,
        r.cwd@ == agent_dir_of(config.working_dir@, project_path@),
        r.env@.map_values(|p: (String, String)| pair_view(p)) == agent_settings(config.env),
        r.rows == 30,
        r.cols == 120,
{
    let mut env: Vec<(String, String)> = Vec::new();
    let mut i: usize = 0;
    while i < config.env.len()
        invariant
            i <= config.env.pairs().len(),
            env@.map_values(|p: (String, String)| pair_view(p)) == settings_of(config.env.pairs().take(i as int)),
        decreases config.env.pairs().len() - i,
    {
        let ghost before = env@.map_values(|p: (String, String)| pair_view(p));
        let k = config.env.key_at(i).clone();
        let v = config.env.value_at(i).clone();
        env.push((k, v));
        proof {
            assert(env@.map_values(|p: (String, String)| pair_view(p)) =~= before.push(pair_view((k, v))));
            assert(config.env.pairs().take(i + 1) =~= config.env.pairs().take(i as int).push(config.env.pairs()[i as int]));
            assert(settings_of(config.env.pairs().take(i + 1)) =~= settings_of(config.env.pairs().take(i as int)).push(
                (config.env.pairs()[i as int].0, config.env.pairs()[i as int].1@),
            ));
        }
        i = i + 1;
    }
    assert(config.env.pairs().take(config.env.pairs().len() as int) =~= config.env.pairs());
    let ghost before = env@.map_values(|p: (String, String)| pair_view(p));
    env.push((owned("TERM"), owned("xterm-256color")));
    assert(env@.map_values(|p: (String, String)| pair_view(p)) =~= before + seq![("TERM"@, "xterm-256color"@)]);
    AgentLaunch {
        program: config.command.clone(),
        args: crate::config::clone_strings(&config.args),
        cwd: agent_working_dir(config.working_dir.as_str(), project_path),
        env,
        rows: 30,
        cols: 120,
    }
}

/// The error for starting an agent that runs already.
pub fn already_running(key: &str) -> (r: EnvibeError)
    ensures
        r matches EnvibeError::Process(m) && m@ == "Agent "@ + key@ + " is already running"@,
{
    EnvibeError::Process(concat3("Agent ", key, " is already running"))
}

/// Whether an agent may be started: not while one runs under the same key.
pub fn agent_start_check(running: bool, key: &str) -> (r: Result<(), EnvibeError>)
    ensures
        running ==> (r matches Err(EnvibeError::Process(m)) && m@ == "Agent "@ + key@ + " is already running"@),
        !running ==> r is Ok,
{
    if running {
        Err(already_running(key))
    } else {
        Ok(())
    }
}

/// The outcome of stopping an agent: an error when none ran under the key.
pub fn agent_stop_result(was_running: bool, key: &str) -> (r: Result<(), EnvibeError>)
    ensures
        !was_running ==> (r matches Err(EnvibeError::Process(m)) && m@ == "Agent "@ + key@ + " is not running"@),
        was_running ==> r is Ok,
{
    if was_running {
        Ok(())
    } else {
        Err(not_running(key))
    }
}

/// The error for addressing an agent that does not run.
pub fn not_running(key: &str) -> (r: EnvibeError)
    ensures
        r matches EnvibeError::Process(m) && m@ == "Agent "@ + key@ + " is not running"@,
{
    EnvibeError::Process(concat3("Agent ", key, " is not running"))
}

/// How waiting for an agent ended.
#[derive(Debug, Clone, Copy, PartialEq, Eq, Structural)]
pub enum AgentExit {
    /// It exited successfully.
    Success,
    /// It exited with a failure.
    Failure,
    /// Waiting for it failed.
    WaitFailed,
}

/// The lines reported when an agent ends: an exit line (when it exited), then
/// the status line: `stopped` when it exited, `error` when waiting failed.
pub open spec fn agent_exit_texts(project: Seq<char>, service: Seq<char>, outcome: AgentExit) -> Seq<Seq<char>> {
    match outcome {
        AgentExit::Success => seq![
            "["@ + service + " EXIT] Agent exited successfully"@,
            status_text(project, service, "stopped"@),
        ],
        AgentExit::Failure => seq![
            "["@ + service + " EXIT] Agent exited with error"@,
            status_text(project, service, "stopped"@),
        ],
        AgentExit::WaitFailed => seq![status_text(project, service, "error"@)],
    }
}

/// The lines reported when an agent ends.
pub fn agent_exit_lines(project: &str, service: &str, outcome: AgentExit) -> (r: Vec<String>)
    ensures
        r@.map_values(|s: String| s@) == agent_exit_texts(project@, service@, outcome),
{
    let mut r: Vec<String> = Vec::new();
    match outcome {
        AgentExit::Success => {
            r.push(concat3("[", service, " EXIT] Agent exited successfully"));
            r.push(status_line(project, service, "stopped"));
        },
        AgentExit::Failure => {
            r.push(concat3("[", service, " EXIT] Agent exited with error"));
            r.push(status_line(project, service, "stopped"));
        },
        AgentExit::WaitFailed => {
            r.push(status_line(project, service, "error"));
        },
    }
    assert(r@.map_values(|s: String| s@) =~= agent_exit_texts(project@, service@, outcome));
    r
}

} // verus!
