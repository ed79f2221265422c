//! The registry of git worktree snapshots, and how snapshots are named.
use vstd::prelude::*;
use crate::config::{joined_path, path_join};
use crate::namemap::{NameMap, lemma_empty_view};
use crate::error::EnvibeError;
use crate::text::{
    alphanumeric, ascii_alphanumeric, ascii_lower_text, is_ascii_text, char_is_alphanumeric, chars_of, concat2, concat3, lowercase, owned, push_char,
    seq_contains, seq_starts_with, str_contains, str_starts_with, string_from_chars, to_lowercase,
};

verus! {

/// A git worktree snapshot.
#[derive(Debug)]
pub struct Snapshot {
    pub id: String,
    pub name: String,
    pub branch: String,
    pub path: String,
    pub created_at: String,
}

impl Clone for Snapshot {
    fn clone(&self) -> (r: Self)
        ensures
            r == *self,
    {
        Snapshot {
            id: self.id.clone(),
            name: self.name.clone(),
            branch: self.branch.clone(),
            path: self.path.clone(),
            created_at: self.created_at.clone(),
        }
    }
}

/// Snapshots per project, each keyed by its id.
#[derive(Debug)]
pub struct WorktreeManager {
    /// Maps project name -> snapshot id -> Snapshot.
    snapshots: NameMap<NameMap<Snapshot>>,
}

/// `s` with every character that is not alphanumeric, `-` or `_` turned into `-`.
pub open spec fn dash_unsafe(s: Seq<char>) -> Seq<char> {
    s.map_values(|c: char| if alphanumeric(c) || c == '-' || c == '_' {
        c
    } else {
        '-'
    })
}

/// `dash_unsafe` over ASCII text: characters other than ASCII letters,
/// digits, `-` and `_` become `-`.
pub open spec fn ascii_dash_unsafe(s: Seq<char>) -> Seq<char> {
    s.map_values(|c: char| if ascii_alphanumeric(c) || c == '-' || c == '_' {
        c
    } else {
        '-'
    })
}

/// The name a snapshot's branch and directory take: unsafe characters turned
/// into `-`, then lowercased.
pub open spec fn safe_snapshot_name(name: Seq<char>) -> Seq<char> {
    lowercase(dash_unsafe(name))
}

/// Sanitizes a snapshot name for use as a branch and directory name.
pub fn sanitize_snapshot_name(name: &str) -> (r: String)
    ensures
        r@ == safe_snapshot_name(name@),
        is_ascii_text(name@) ==> r@ == ascii_lower_text(ascii_dash_unsafe(name@)),
{
    let cs = chars_of(name);
    let mut out = String::new();
    let mut i: usize = 0;
    while i < cs.len()
        invariant
            i <= cs.len(),
            cs@ == name@,
            out@ == dash_unsafe(cs@.take(i as int)),
            is_ascii_text(name@) ==> out@ == ascii_dash_unsafe(cs@.take(i as int)),
        decreases cs.len() - i,
    {
        let c = cs[i];
        if char_is_alphanumeric(c) || c == '-' || c == '_' {
            push_char(&mut out, c);
        } else {
            push_char(&mut out, '-');
        }
        assert(dash_unsafe(cs@.take(i + 1)) =~= dash_unsafe(cs@.take(i as int)).push(
            if alphanumeric(c) || c == '-' || c == '_' {
                c
            } else {
                '-'
            },
        ));
        assert(ascii_dash_unsafe(cs@.take(i + 1)) =~= ascii_dash_unsafe(cs@.take(i as int)).push(
            if ascii_alphanumeric(c) || c == '-' || c == '_' {
                c
            } else {
                '-'
            },
        ));
        proof {
            if is_ascii_text(name@) {
                assert((cs@[i as int] as u32) < 128);
            }
        }
        i = i + 1;
    }
    assert(cs@.take(cs.len() as int) =~= cs@);
    proof {
        if is_ascii_text(name@) {
            assert forall|i: int| 0 <= i < out@.len() implies (#[trigger] out@[i] as u32) < 128 by {
                assert((name@[i] as u32) < 128);
            }
        }
    }
    to_lowercase(out.as_str())
}

/// The branch a snapshot is taken on: `snapshot/<safe name>`.
pub fn snapshot_branch(safe_name: &str) -> (r: String)
    ensures
        r@ == "snapshot/"@ + safe_name@,
{
    concat2("snapshot/", safe_name)
}

/// The directory that holds a project's worktrees.
pub fn worktrees_dir(project_path: &str) -> (r: String)
    ensures
        r@ == joined_path(project_path@, ".worktrees"@),
{
    path_join(project_path, ".worktrees")
}

/// The snapshots of one project map, in entry order.
pub open spec fn snapshot_values(m: NameMap<Snapshot>) -> Seq<Snapshot> {
    m.pairs().map_values(|e: (Seq<char>, Snapshot)| e.1)
}

impl WorktreeManager {
    /// The registry: project name to snapshots by id.
    pub closed spec fn registry(&self) -> NameMap<NameMap<Snapshot>> {
        self.snapshots
    }

    /// Keys are distinct at both levels.
    pub open spec fn wf(&self) -> bool {
        &&& self.registry().wf()
        &&& forall|p: Seq<char>| #[trigger] self.registry()@.contains_key(p) ==> self.registry()@[p].wf()
    }

    /// The snapshot of a project with the given id.
    pub open spec fn snapshot_of(&self, project: Seq<char>, id: Seq<char>) -> Option<Snapshot> {
        if self.registry()@.contains_key(project) && self.registry()@[project]@.contains_key(id) {
            Some(self.registry()@[project]@[id])
        } else {
            None
        }
    }

    /// No snapshots.
    pub fn new() -> (r: Self)
        ensures
            r.wf(),
            r.registry()@ == Map::<Seq<char>, NameMap<Snapshot>>::empty(),
    {
        let r = WorktreeManager { snapshots: NameMap::new() };
        proof {
            lemma_empty_view(&r.snapshots);
        }
        r
    }

    /// A manager holding saved snapshots.
    pub fn from_saved(snapshots: NameMap<NameMap<Snapshot>>) -> (r: Self)
        ensures
            r.registry() == snapshots,
    {
        WorktreeManager { snapshots }
    }

    /// The saved snapshots.
    pub fn saved(&self) -> (r: &NameMap<NameMap<Snapshot>>)
        ensures
            *r == self.registry(),
    {
        &self.snapshots
    }

    /// All snapshots of a project, in registry order (none for an unknown project).
    pub fn get_snapshots(&self, project_name: &str) -> (r: Vec<Snapshot>)
        ensures
            r@ == if self.registry()@.contains_key(project_name@) {
                snapshot_values(self.registry()@[project_name@])
            } else {
                Seq::empty()
            },
    {
        match self.snapshots.get(project_name) {
            Some(m) => {
                let ghost vals = snapshot_values(*m);
                let mut out: Vec<Snapshot> = Vec::new();
                let mut i: usize = 0;
                while i < m.len()
                    invariant
                        i <= m.pairs().len(),
                        vals == snapshot_values(*m),
                        out@ == vals.take(i as int),
                    decreases m.pairs().len() - i,
                {
                    out.push(m.value_at(i).clone());
                    assert(vals.take(i + 1) =~= vals.take(i as int).push(vals[i as int]));
                    i = i + 1;
                }
                assert(vals.take(vals.len() as int) =~= vals);
                out
            },
            None => Vec::new(),
        }
    }

    /// A project's snapshot with the given id.
    pub fn get_snapshot(&self, project_name: &str, snapshot_id: &str) -> (r: Option<&Snapshot>)
        ensures
            match r {
                Some(s) => self.snapshot_of(project_name@, snapshot_id@) == Some(*s),
                None => self.snapshot_of(project_name@, snapshot_id@) is None,
            },
    {
        match self.snapshots.get(project_name) {
            Some(m) => m.get(snapshot_id),
            None => None,
        }
    }

    /// Records a snapshot of a project under its id.
    pub fn add_snapshot(&mut self, project_name: &str, snapshot: Snapshot)
        requires
            old(self).wf(),
        ensures
            final(self).wf(),
            forall|p: Seq<char>, q: Seq<char>| #[trigger] final(self).snapshot_of(p, q) == if p == project_name@ && q == snapshot.id@ {
                Some(snapshot)
            } else {
                old(self).snapshot_of(p, q)
            },
    {
        let ghost s0 = self.snapshots;
        let ghost id = snapshot.id@;
        let mut inner = match self.snapshots.remove(project_name) {
            Some(m) => m,
            None => NameMap::new(),
        };
        proof {
            if s0@.contains_key(project_name@) {
                assert(inner == s0@[project_name@]);
            } else {
                lemma_empty_view(&inner);
            }
        }
        let ghost inner0 = inner@;
        let key = snapshot.id.clone();
        inner.insert(key, snapshot);
        self.snapshots.insert(owned(project_name), inner);
        proof {
            assert forall|p: Seq<char>| #[trigger] self.registry()@.contains_key(p) implies self.registry()@[p].wf() by {
                if p != project_name@ {
                    assert(s0@.contains_key(p));
                }
            }
            assert forall|p: Seq<char>, q: Seq<char>| #[trigger] self.snapshot_of(p, q) == if p == project_name@ && q == id {
                Some(snapshot)
            } else {
                old(self).snapshot_of(p, q)
            } by {
                if p == project_name@ {
                    assert(self.registry()@[p]@ == inner0.insert(id, snapshot));
                }
            }
        }
    }

    /// Forgets a project's snapshot.
    pub fn remove_snapshot(&mut self, project_name: &str, snapshot_id: &str)
        requires
            old(self).wf(),
        ensures
            final(self).wf(),
            forall|p: Seq<char>, q: Seq<char>| #[trigger] final(self).snapshot_of(p, q) == if p == project_name@ && q == snapshot_id@ {
                None
            } else {
                old(self).snapshot_of(p, q)
            },
    {
        let ghost s0 = self.snapshots;
        match self.snapshots.remove(project_name) {
            Some(mut inner) => {
                proof {
                    assert(s0@.contains_key(project_name@));
                    assert(inner == s0@[project_name@]);
                    assert(inner.wf());
                }
                let ghost inner0 = inner@;
                inner.remove(snapshot_id);
                self.snapshots.insert(owned(project_name), inner);
                proof {
                    assert forall|p: Seq<char>| #[trigger] self.registry()@.contains_key(p) implies self.registry()@[p].wf() by {
                        if p != project_name@ {
                            assert(s0@.contains_key(p));
                        }
                    }
                    assert forall|p: Seq<char>, q: Seq<char>| #[trigger] self.snapshot_of(p, q) == if p == project_name@ && q == snapshot_id@ {
                        None
                    } else {
                        old(self).snapshot_of(p, q)
                    } by {
                        if p == project_name@ {
                            assert(self.registry()@[p]@ == inner0.remove(snapshot_id@));
                        }
                    }
                }
            },
            None => {
                proof {
                    assert forall|p: Seq<char>| #[trigger] self.registry()@.contains_key(p) implies self.registry()@[p].wf() by {
                        assert(s0@.contains_key(p));
                    }
                }
            },
        }
    }
}


/// Where and on which branch a snapshot is made.
#[derive(Debug)]
pub struct SnapshotPlan {
    /// The sanitized snapshot name.
    pub safe_name: String,
    /// `snapshot/<safe name>`.
    pub branch: String,
    /// The project's `.worktrees` directory.
    pub worktrees_dir: String,
    /// The snapshot's worktree directory inside it.
    pub worktree_path: String,
}

/// Where and on which branch a snapshot of the given name is made.
pub fn plan_snapshot(project_path: &str, snapshot_name: &str) -> (r: SnapshotPlan)
    ensures
        r.safe_name@ == safe_snapshot_name(snapshot_name@),
        is_ascii_text(snapshot_name@) ==> r.safe_name@ == ascii_lower_text(ascii_dash_unsafe(snapshot_name@)),
        r.branch@ == "snapshot/"@ + r.safe_name@,
        r.worktrees_dir@ == joined_path(project_path@, ".worktrees"@),
        r.worktree_path@ == joined_path(r.worktrees_dir@, r.safe_name@),
{
    let safe_name = sanitize_snapshot_name(snapshot_name);
    let branch = snapshot_branch(safe_name.as_str());
    let dir = worktrees_dir(project_path);
    let worktree_path = path_join(dir.as_str(), safe_name.as_str());
    SnapshotPlan { safe_name, branch, worktrees_dir: dir, worktree_path }
}

/// Why making or removing a snapshot failed.
#[derive(Debug)]
pub enum SnapshotFailure {
    /// The project directory is not a git repository.
    NotARepository { project: String },
    /// A worktree of that name exists already.
    WorktreeExists { safe_name: String },
    /// The current HEAD could not be read.
    NoHead,
    /// The branch could not be created; git's message.
    BranchFailed { stderr: String },
    /// The worktree could not be created; git's message.
    WorktreeFailed { stderr: String },
}

/// The error a snapshot failure is reported as.
pub fn snapshot_error(f: &SnapshotFailure) -> (r: EnvibeError)
    ensures
        r matches EnvibeError::Git(m) && m@ == match *f {
            SnapshotFailure::NotARepository { project } => "Project '"@ + project@ + "' is not a git repository"@,
            SnapshotFailure::WorktreeExists { safe_name } => "Worktree '"@ + safe_name@ + "' already exists"@,
            SnapshotFailure::NoHead => "Failed to get current HEAD"@,
            SnapshotFailure::BranchFailed { stderr } => "Failed to create branch: "@ + stderr@,
            SnapshotFailure::WorktreeFailed { stderr } => "Failed to create worktree: "@ + stderr@,
        },
{
    let m = match f {
        SnapshotFailure::NotARepository { project } => concat3("Project '", project.as_str(), "' is not a git repository"),
        SnapshotFailure::WorktreeExists { safe_name } => concat3("Worktree '", safe_name.as_str(), "' already exists"),
        SnapshotFailure::NoHead => owned("Failed to get current HEAD"),
        SnapshotFailure::BranchFailed { stderr } => concat2("Failed to create branch: ", stderr.as_str()),
        SnapshotFailure::WorktreeFailed { stderr } => concat2("Failed to create worktree: ", stderr.as_str()),
    };
    EnvibeError::Git(m)
}

/// A new snapshot of the given name made on `plan`'s branch and worktree,
/// under the id `id` (a fresh one, chosen by the caller), created at
/// `created_at` (an RFC 3339 time).
pub fn new_snapshot(snapshot_name: &str, plan: &SnapshotPlan, id: String, created_at: String) -> (r: Snapshot)
    ensures
        r.id == id,
        r.created_at == created_at,
        r.name@ == snapshot_name@,
        r.branch == plan.branch,
        r.path == plan.worktree_path,
{
    Snapshot {
        id,
        name: owned(snapshot_name),
        branch: plan.branch.clone(),
        path: plan.worktree_path.clone(),
        created_at,
    }
}

/// What removing a snapshot does: its worktree directory, and the branch to
/// delete when it is one this tool made (`snapshot/...`).
#[derive(Debug)]
pub struct RemovalPlan {
    pub worktree_path: String,
    pub branch_to_delete: Option<String>,
}

impl WorktreeManager {
    /// How to remove a project's snapshot; not found when the project has no
    /// snapshot of that id.
    pub fn plan_removal(&self, project_name: &str, snapshot_id: &str) -> (r: Result<RemovalPlan, EnvibeError>)
        requires
            self.wf(),
        ensures
            match self.snapshot_of(project_name@, snapshot_id@) {
                Some(s) => r matches Ok(plan) && plan.worktree_path == s.path && match plan.branch_to_delete {
                    Some(b) => b == s.branch && seq_starts_with(s.branch@, "snapshot/"@),
                    None => !seq_starts_with(s.branch@, "snapshot/"@),
                },
                None => r matches Err(EnvibeError::NotFound(m)) && m@ == "Snapshot "@ + snapshot_id@ + " not found"@,
            },
    {
        match self.get_snapshot(project_name, snapshot_id) {
            Some(s) => {
                let del = if str_starts_with(s.branch.as_str(), "snapshot/") {
                    Some(s.branch.clone())
                } else {
                    None
                };
                Ok(RemovalPlan { worktree_path: s.path.clone(), branch_to_delete: del })
            },
            None => Err(EnvibeError::NotFound(concat3("Snapshot ", snapshot_id, " not found"))),
        }
    }
}

/// Whether git's message on a failed worktree removal is worth a warning:
/// not when the directory was no working tree anyway.
pub fn removal_warning(stderr: &str) -> (r: bool)
    ensures
        r == !seq_contains(stderr@, "is not a working tree"@),
{
    !str_contains(stderr, "is not a working tree")
}

} // verus!
