//! Terminal sessions: their registry, names, and the output history they keep.
use vstd::prelude::*;
use crate::config::{clone_opt_string, opt_view};
use crate::namemap::{NameMap, lemma_empty_view};
use crate::text::{
    ascii_upper, chars_of, char_to_uppercase, concat2, concat3, decimal, owned, slice_chars, string_from_chars,
    str_eq, u64_to_decimal, uppercase_char,
};

verus! {

/// Whether a terminal session's process is attached.
#[derive(Debug, Clone, Copy, PartialEq, Eq, Structural)]
pub enum TerminalStatus {
    Connected,
    Disconnected,
}

/// Kind of terminal session.
#[derive(Debug, Clone, Copy, PartialEq, Eq, Structural)]
pub enum TerminalType {
    Shell,
    Agent,
}

impl Default for TerminalType {
    fn default() -> (t: Self)
        ensures
            t == TerminalType::Shell,
    {
        TerminalType::Shell
    }
}

/// A terminal session (metadata only).
#[derive(Debug)]
pub struct TerminalSession {
    pub id: String,
    pub name: String,
    pub status: TerminalStatus,
    /// Terminal type (shell or agent).
    pub session_type: TerminalType,
    /// Project this terminal belongs to.
    pub project_name: String,
    /// Snapshot ID if this terminal is in a snapshot context.
    pub snapshot_id: Option<String>,
}

impl Clone for TerminalSession {
    fn clone(&self) -> (r: Self)
        ensures
            r == *self,
    {
        TerminalSession {
            id: self.id.clone(),
            name: self.name.clone(),
            status: self.status,
            session_type: self.session_type,
            project_name: self.project_name.clone(),
            snapshot_id: clone_opt_string(&self.snapshot_id),
        }
    }
}

/// A session belongs to `project` and to the given snapshot context (none
/// meaning: outside any snapshot).
pub open spec fn session_matches(s: TerminalSession, project: Seq<char>, snapshot: Option<Seq<char>>) -> bool {
    s.project_name@ == project && opt_view(s.snapshot_id) == snapshot
}

/// The sessions among `s` that match, in order.
pub open spec fn matching_sessions(s: Seq<TerminalSession>, project: Seq<char>, snapshot: Option<Seq<char>>) -> Seq<TerminalSession>
    decreases s.len(),
{
    if s.len() == 0 {
        Seq::empty()
    } else {
        let rest = matching_sessions(s.drop_last(), project, snapshot);
        if session_matches(s.last(), project, snapshot) {
            rest.push(s.last())
        } else {
            rest
        }
    }
}

/// Session registry, with the counters that number new sessions.
#[derive(Debug)]
pub struct TerminalSessions {
    pub sessions: NameMap<TerminalSession>,
    shell_counter: u32,
    agent_counter: u32,
}

/// The sessions stored in a map, in entry order.
pub open spec fn session_values(m: NameMap<TerminalSession>) -> Seq<TerminalSession> {
    m.pairs().map_values(|e: (Seq<char>, TerminalSession)| e.1)
}

fn opt_str_eq(a: &Option<String>, b: Option<&str>) -> (r: bool)
    ensures
        r == (opt_view(*a) == match b {
            Some(s) => Some(s@),
            None => None::<Seq<char>>,
        }),
{
    match (a, b) {
        (Some(x), Some(y)) => str_eq(x.as_str(), y),
        (None, None) => true,
        _ => false,
    }
}

impl TerminalSessions {
    /// The session registry.
    pub closed spec fn registry(&self) -> NameMap<TerminalSession> {
        self.sessions
    }

    /// Number of shell sessions created so far.
    pub closed spec fn shells(&self) -> u32 {
        self.shell_counter
    }

    /// Number of agent sessions created so far.
    pub closed spec fn agents(&self) -> u32 {
        self.agent_counter
    }

    /// No sessions; both counters at zero.
    pub fn new() -> (r: Self)
        ensures
            r.registry().wf(),
            r.registry()@ == Map::<Seq<char>, TerminalSession>::empty(),
            r.shells() == 0,
            r.agents() == 0,
    {
        let r = TerminalSessions { sessions: NameMap::new(), shell_counter: 0, agent_counter: 0 };
        proof {
            lemma_empty_view(&r.sessions);
        }
        r
    }

    /// Sessions read back from storage: all marked disconnected, counters at zero.
    pub fn from_saved(sessions: NameMap<TerminalSession>) -> (r: Self)
        requires
            sessions.wf(),
        ensures
            r.registry().wf(),
            r.registry().key_seq() == sessions.key_seq(),
            r.registry().pairs().len() == sessions.pairs().len(),
            forall|i: int| 0 <= i < sessions.pairs().len() ==> #[trigger] r.registry().pairs()[i].1 == ({
                let s = sessions.pairs()[i].1;
                TerminalSession { status: TerminalStatus::Disconnected, ..s }
            }),
            r.shells() == 0,
            r.agents() == 0,
    {
        let mut m = sessions;
        let ghost orig = m;
        let mut i: usize = 0;
        while i < m.len()
            invariant
                i <= m.pairs().len(),
                m.wf(),
                m.key_seq() == orig.key_seq(),
                m.pairs().len() == orig.pairs().len(),
                forall|j: int| 0 <= j < i ==> #[trigger] m.pairs()[j].1 == ({
                    let s = orig.pairs()[j].1;
                    TerminalSession { status: TerminalStatus::Disconnected, ..s }
                }),
                forall|j: int| i <= j < m.pairs().len() ==> #[trigger] m.pairs()[j] == orig.pairs()[j],
            decreases m.pairs().len() - i,
        {
            let ghost before = m;
            let v = m.value_at_mut(i);
            v.status = TerminalStatus::Disconnected;
            proof {
                crate::namemap::lemma_update_entry(&before, &m, i as int, m.pairs()[i as int].1);
                assert(m.key_seq() =~= before.key_seq());
            }
            i = i + 1;
        }
        TerminalSessions { sessions: m, shell_counter: 0, agent_counter: 0 }
    }

    /// The sessions of a project in the given snapshot context (`None`: outside
    /// any snapshot), in registry order.
    pub fn get_sessions(&self, project_name: &str, snapshot_id: Option<&str>) -> (r: Vec<TerminalSession>)
        ensures
            r@ == matching_sessions(session_values(self.registry()), project_name@, match snapshot_id {
                Some(s) => Some(s@),
                None => None,
            }),
    {
        let ghost snap = match snapshot_id {
            Some(s) => Some(s@),
            None => None::<Seq<char>>,
        };
        let ghost vals = session_values(self.registry());
        let mut out: Vec<TerminalSession> = Vec::new();
        let mut i: usize = 0;
        while i < self.sessions.len()
            invariant
                i <= self.sessions.pairs().len(),
                vals == session_values(self.registry()),
                snap == match snapshot_id {
                    Some(s) => Some(s@),
                    None => None::<Seq<char>>,
                },
                out@ == matching_sessions(vals.take(i as int), project_name@, snap),
            decreases self.sessions.pairs().len() - i,
        {
            proof {
                assert(vals.take(i + 1).drop_last() =~= vals.take(i as int));
                assert(vals.take(i + 1).last() == vals[i as int]);
            }
            let s = self.sessions.value_at(i);
            if str_eq(s.project_name.as_str(), project_name) && opt_str_eq(&s.snapshot_id, snapshot_id) {
                out.push(s.clone());
            }
            i = i + 1;
        }
        assert(vals.take(vals.len() as int) =~= vals);
        out
    }

    /// The next shell session number.
    pub fn next_shell_counter(&mut self) -> (n: u32)
        requires
            old(self).shells() < u32::MAX,
        ensures
            n == old(self).shells() + 1,
            final(self).shells() == n,
            final(self).agents() == old(self).agents(),
            final(self).registry() == old(self).registry(),
    {
        self.shell_counter = self.shell_counter + 1;
        self.shell_counter
    }

    /// The next agent session number.
    pub fn next_agent_counter(&mut self) -> (n: u32)
        requires
            old(self).agents() < u32::MAX,
        ensures
            n == old(self).agents() + 1,
            final(self).agents() == n,
            final(self).shells() == old(self).shells(),
            final(self).registry() == old(self).registry(),
    {
        self.agent_counter = self.agent_counter + 1;
        self.agent_counter
    }

    /// Registers a session under its id.
    pub fn add_session(&mut self, session: TerminalSession)
        requires
            old(self).registry().wf(),
        ensures
            final(self).registry().wf(),
            final(self).registry()@ == old(self).registry()@.insert(session.id@, session),
            final(self).shells() == old(self).shells(),
            final(self).agents() == old(self).agents(),
    {
        let id = session.id.clone();
        self.sessions.insert(id, session);
    }

    /// Forgets a session.
    pub fn remove_session(&mut self, terminal_id: &str)
        requires
            old(self).registry().wf(),
        ensures
            final(self).registry().wf(),
            final(self).registry()@ == old(self).registry()@.remove(terminal_id@),
            final(self).shells() == old(self).shells(),
            final(self).agents() == old(self).agents(),
    {
        self.sessions.remove(terminal_id);
    }
}

/// The display name of shell session number `n`.
pub open spec fn shell_name(n: u32) -> Seq<char> {
    "Terminal "@ + decimal(n as nat)
}

/// An agent command with its first character uppercased (`codex` gives `Codex`).
pub open spec fn capitalized(command: Seq<char>) -> Seq<char> {
    if command.len() == 0 {
        command
    } else {
        uppercase_char(command[0]) + command.drop_first()
    }
}

/// The display name of agent session number `n` running `command`.
pub open spec fn agent_name(command: Seq<char>, n: u32) -> Seq<char> {
    capitalized(command) + " "@ + decimal(n as nat)
}

/// The display name of shell session number `counter`: `Terminal <counter>`.
pub fn shell_terminal_name(counter: u32) -> (s: String)
    ensures
        s@ == shell_name(counter),
{
    concat2("Terminal ", u64_to_decimal(counter as u64).as_str())
}

/// An agent command with its first character uppercased.
pub fn agent_display_name(command: &str) -> (s: String)
    ensures
        s@ == capitalized(command@),
        command@.len() > 0 && (command@[0] as u32) < 128 ==> s@ == seq![ascii_upper(command@[0])]
            + command@.drop_first(),
{
    let cs = chars_of(command);
    if cs.len() == 0 {
        return owned(command);
    }
    let mut s = char_to_uppercase(cs[0]);
    let rest = slice_chars(&cs, 1, cs.len());
    let rs = string_from_chars(&rest);
    s.append(rs.as_str());
    assert(rest@ =~= command@.drop_first());
    s
}

/// The display name of agent session number `counter` running `command`.
pub fn agent_terminal_name(command: &str, counter: u32) -> (s: String)
    ensures
        s@ == agent_name(command@, counter),
{
    let d = agent_display_name(command);
    concat3(d.as_str(), " ", u64_to_decimal(counter as u64).as_str())
}

/// A newly started, connected session.
pub fn new_session(
    id: String,
    name: String,
    session_type: TerminalType,
    project_name: &str,
    snapshot_id: Option<String>,
) -> (s: TerminalSession)
    ensures
        s.id == id,
        s.name == name,
        s.status == TerminalStatus::Connected,
        s.session_type == session_type,
        s.project_name@ == project_name@,
        s.snapshot_id == snapshot_id,
{
    TerminalSession {
        id,
        name,
        status: TerminalStatus::Connected,
        session_type,
        project_name: owned(project_name),
        snapshot_id,
    }
}

/// The history kept after appending `data`: the last `cap` bytes when longer.
pub open spec fn capped(history: Seq<u8>, data: Seq<u8>, cap: nat) -> Seq<u8> {
    let all = history + data;
    if all.len() > cap {
        all.skip(all.len() - cap)
    } else {
        all
    }
}

/// Appends output to a terminal's history, keeping at most the last `cap` bytes.
pub fn append_capped(history: &mut Vec<u8>, data: &[u8], cap: usize)
    requires
        old(history).len() + data@.len() <= usize::MAX,
    ensures
        final(history)@ == capped(old(history)@, data@, cap as nat),
{
    let mut i: usize = 0;
    let ghost h0 = history@;
    while i < data.len()
        invariant
            i <= data@.len(),
            h0.len() + data@.len() <= usize::MAX,
            history@ == h0 + data@.take(i as int),
        decreases data@.len() - i,
    {
        history.push(data[i]);
        assert(h0 + data@.take(i + 1) =~= (h0 + data@.take(i as int)).push(data@[i as int]));
        i = i + 1;
    }
    assert(data@.take(data@.len() as int) =~= data@);
    if history.len() > cap {
        let drop = history.len() - cap;
        let mut kept: Vec<u8> = Vec::new();
        let mut k: usize = drop;
        while k < history.len()
            invariant
                drop <= k <= history.len(),
                kept@ == history@.subrange(drop as int, k as int),
            decreases history.len() - k,
        {
            kept.push(history[k]);
            assert(history@.subrange(drop as int, k + 1) =~= history@.subrange(drop as int, k as int).push(history@[k as int]));
            k = k + 1;
        }
        assert(kept@ =~= history@.skip(drop as int));
        *history = kept;
    }
}


impl TerminalSessions {
    /// Number of shell sessions created so far.
    pub fn shell_count(&self) -> (n: u32)
        ensures
            n == self.shells(),
    {
        self.shell_counter
    }

    /// Number of agent sessions created so far.
    pub fn agent_count(&self) -> (n: u32)
        ensures
            n == self.agents(),
    {
        self.agent_counter
    }

    /// Numbers and names a new shell session of a project under the id `id`
    /// (a fresh one, chosen by the caller); it is registered with
    /// `add_session` once its terminal runs.
    pub fn begin_shell_session(&mut self, project_name: &str, snapshot_id: Option<String>, id: String) -> (s: TerminalSession)
        requires
            old(self).shells() < u32::MAX,
        ensures
            final(self).shells() == old(self).shells() + 1,
            final(self).agents() == old(self).agents(),
            final(self).registry() == old(self).registry(),
            s.id == id,
            s.name@ == shell_name(final(self).shells()),
            s.status == TerminalStatus::Connected,
            s.session_type == TerminalType::Shell,
            s.project_name@ == project_name@,
            s.snapshot_id == snapshot_id,
    {
        let n = self.next_shell_counter();
        new_session(id, shell_terminal_name(n), TerminalType::Shell, project_name, snapshot_id)
    }

    /// Numbers and names a new agent session of a project running `command`,
    /// under the id `id` (a fresh one, chosen by the caller); it is
    /// registered with `add_session` once its terminal runs.
    pub fn begin_agent_session(&mut self, project_name: &str, snapshot_id: Option<String>, command: &str, id: String) -> (s: TerminalSession)
        requires
            old(self).agents() < u32::MAX,
        ensures
            final(self).agents() == old(self).agents() + 1,
            final(self).shells() == old(self).shells(),
            final(self).registry() == old(self).registry(),
            s.id == id,
            s.name@ == agent_name(command@, final(self).agents()),
            s.status == TerminalStatus::Connected,
            s.session_type == TerminalType::Agent,
            s.project_name@ == project_name@,
            s.snapshot_id == snapshot_id,
    {
        let n = self.next_agent_counter();
        new_session(id, agent_terminal_name(command, n), TerminalType::Agent, project_name, snapshot_id)
    }
}

/// The shell a terminal runs: the user's, else `/bin/bash`.
pub fn shell_program(shell: Option<String>) -> (r: String)
    ensures
        r@ == match shell {
            Some(s) => s@,
            None => "/bin/bash"@,
        },
{
    match shell {
        Some(s) => s,
        None => owned("/bin/bash"),
    }
}

/// The error for a terminal id that names no running terminal.
pub fn terminal_not_found(terminal_id: &str) -> (r: crate::error::EnvibeError)
    ensures
        r matches crate::error::EnvibeError::NotFound(m) && m@ == "Terminal "@ + terminal_id@ + " not found"@,
{
    crate::error::EnvibeError::NotFound(concat3("Terminal ", terminal_id, " not found"))
}

} // verus!
