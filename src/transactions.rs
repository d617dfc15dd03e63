//! File transactions: snapshots taken before a turn touches a file, and the
//! restore plan that puts every touched file back.
//!
//! The library decides; the caller reads and writes the files. A snapshot is
//! handed in after the caller has read the file, and a rollback hands back the
//! writes and removals that restore the state before the transaction.
use vstd::prelude::*;
use crate::text::{chars_of, decimal, decimal_string, equal_chars, starts_with_chars};
use crate::message::opt_text;

verus! {

/// The state of one file before the transaction first touched it.
#[derive(Debug, Clone)]
pub struct FileSnapshot {
    pub path: String,
    /// The file's text, or `None` if it did not exist.
    pub content: Option<String>,
    /// Modification time in seconds since the epoch, when known.
    pub modified: Option<u64>,
    pub exists: bool,
}

/// One step of a rollback.
#[derive(Debug, Clone)]
pub enum RestoreAction {
    /// Write the file back with this text.
    Write { path: String, content: String },
    /// Remove the file if it exists now; it did not exist before.
    Remove { path: String },
}

/// Why a file operation was refused.
#[derive(Debug, Clone)]
pub enum TransactionError {
    OutsideSandbox { path: String },
}

impl TransactionError {
    pub fn message(&self) -> (r: String)
        ensures
            match self {
                TransactionError::OutsideSandbox { path } => r@
                    == "Cannot modify files outside of sandbox: "@ + path@,
            },
    {
        match self {
            TransactionError::OutsideSandbox { path } => String::from_str(
                "Cannot modify files outside of sandbox: ",
            ).concat(path.as_str()),
        }
    }
}

impl FileSnapshot {
    /// `exists` agrees with `content`.
    pub open spec fn wf(&self) -> bool {
        self.exists == self.content.is_some()
    }

    /// Snapshot of a path that the caller found with `content`, or absent when `None`.
    pub fn captured(path: String, content: Option<String>, modified: Option<u64>) -> (r:
        FileSnapshot)
        ensures
            r.wf(),
            r.path@ == path@,
            opt_text(r.content) == opt_text(content),
            r.modified == modified,
    {
        let exists = content.is_some();
        FileSnapshot { path, content, modified, exists }
    }

    /// The action that puts this path back as it was.
    pub fn restore_action(&self) -> (r: RestoreAction)
        requires
            self.wf(),
        ensures
            action_view(r) == (self.path@, opt_text(self.content)),
    {
        match &self.content {
            Some(c) => RestoreAction::Write { path: self.path.clone(), content: c.clone() },
            None => RestoreAction::Remove { path: self.path.clone() },
        }
    }
}

/// A restore step as the path and the text it leaves there (`None`: no file).
pub open spec fn action_view(a: RestoreAction) -> (Seq<char>, Option<Seq<char>>) {
    match a {
        RestoreAction::Write { path, content } => (path@, Some(content@)),
        RestoreAction::Remove { path } => (path@, None),
    }
}

pub open spec fn plan_view(v: Seq<RestoreAction>) -> Seq<(Seq<char>, Option<Seq<char>>)> {
    v.map_values(|a: RestoreAction| action_view(a))
}

/// The restore plan of a list of snapshots, one step per snapshot, in order.
pub open spec fn rollback_plan(snaps: Seq<FileSnapshot>) -> Seq<(Seq<char>, Option<Seq<char>>)> {
    snaps.map_values(|s: FileSnapshot| (s.path@, opt_text(s.content)))
}

pub open spec fn has_path(snaps: Seq<FileSnapshot>, p: Seq<char>) -> bool {
    exists|i: int| 0 <= i < snaps.len() && #[trigger] snaps[i].path@ == p
}

pub open spec fn has_text(v: Seq<String>, p: Seq<char>) -> bool {
    exists|i: int| 0 <= i < v.len() && #[trigger] v[i]@ == p
}

/// The file changes of one turn.
pub struct Transaction {
    pub snapshots: Vec<FileSnapshot>,
    pub modified_files: Vec<String>,
}

impl Transaction {
    /// Snapshots are well formed and there is at most one per path; modified
    /// paths are listed once.
    pub open spec fn wf(&self) -> bool {
        &&& forall|i: int| 0 <= i < self.snapshots@.len() ==> (#[trigger] self.snapshots@[i]).wf()
        &&& forall|i: int, j: int|
            0 <= i < j < self.snapshots@.len() ==> #[trigger] self.snapshots@[i].path@
                != #[trigger] self.snapshots@[j].path@
        &&& forall|i: int, j: int|
            0 <= i < j < self.modified_files@.len() ==> #[trigger] self.modified_files@[i]@
                != #[trigger] self.modified_files@[j]@
    }

    pub fn new() -> (r: Transaction)
        ensures
            r.wf(),
            r.snapshots@.len() == 0,
            r.modified_files@.len() == 0,
    {
        Transaction { snapshots: Vec::new(), modified_files: Vec::new() }
    }

    /// Whether `path` already has its snapshot.
    pub fn has_snapshot(&self, path: &str) -> (r: bool)
        ensures
            r == has_path(self.snapshots@, path@),
    {
        let p = chars_of(path);
        let mut i: usize = 0;
        while i < self.snapshots.len()
            invariant
                i <= self.snapshots@.len(),
                p@ == path@,
                forall|j: int| 0 <= j < i ==> #[trigger] self.snapshots@[j].path@ != path@,
            decreases self.snapshots@.len() - i,
        {
            let q = chars_of(self.snapshots[i].path.as_str());
            if equal_chars(&q, &p) {
                return true;
            }
            i = i + 1;
        }
        false
    }

    /// Records the state of a file before its first change; a later snapshot of a
    /// path that already has one is ignored (the first one wins).
    pub fn snapshot_file(&mut self, snapshot: FileSnapshot)
        requires
            old(self).wf(),
            snapshot.wf(),
        ensures
            final(self).wf(),
            final(self).modified_files@ == old(self).modified_files@,
            has_path(old(self).snapshots@, snapshot.path@) ==> final(self).snapshots@ == old(
                self,
            ).snapshots@,
            !has_path(old(self).snapshots@, snapshot.path@) ==> final(self).snapshots@ == old(
                self,
            ).snapshots@.push(snapshot),
    {
        if !self.has_snapshot(snapshot.path.as_str()) {
            self.snapshots.push(snapshot);
            assert forall|i: int, j: int|
                0 <= i < j < self.snapshots@.len() implies #[trigger] self.snapshots@[i].path@
                != #[trigger] self.snapshots@[j].path@ by {
                if j == self.snapshots@.len() - 1 {
                    assert(old(self).snapshots@[i].path@ != snapshot.path@);
                } else {
                    assert(old(self).snapshots@[i].path@ != old(self).snapshots@[j].path@);
                }
            }
        }
    }

    /// Notes that `path` was changed in this transaction.
    pub fn mark_modified(&mut self, path: &str)
        requires
            old(self).wf(),
        ensures
            final(self).wf(),
            final(self).snapshots@ == old(self).snapshots@,
            has_text(old(self).modified_files@, path@) ==> final(self).modified_files@ == old(
                self,
            ).modified_files@,
            !has_text(old(self).modified_files@, path@) ==> final(self).modified_files@.len()
                == old(self).modified_files@.len() + 1 && final(self).modified_files@.drop_last()
                == old(self).modified_files@ && final(self).modified_files@.last()@ == path@,
    {
        let p = chars_of(path);
        let mut i: usize = 0;
        while i < self.modified_files.len()
            invariant
                i <= self.modified_files@.len(),
                p@ == path@,
                *self == *old(self),
                self.wf(),
                forall|j: int| 0 <= j < i ==> #[trigger] self.modified_files@[j]@ != path@,
            decreases self.modified_files@.len() - i,
        {
            let q = chars_of(self.modified_files[i].as_str());
            if equal_chars(&q, &p) {
                return;
            }
            i = i + 1;
        }
        let ghost before = self.modified_files@;
        self.modified_files.push(String::from_str(path));
        assert(self.modified_files@.drop_last() =~= before);
        assert forall|a: int, b: int|
            0 <= a < b < self.modified_files@.len() implies #[trigger] self.modified_files@[a]@
            != #[trigger] self.modified_files@[b]@ by {
            if b == self.modified_files@.len() - 1 {
                assert(before[a]@ != path@);
            } else {
                assert(before[a]@ != before[b]@);
            }
        }
    }

    /// The steps that restore every snapshotted path, one per snapshot.
    pub fn rollback(&self) -> (r: Vec<RestoreAction>)
        requires
            self.wf(),
        ensures
            plan_view(r@) == rollback_plan(self.snapshots@),
    {
        let mut r: Vec<RestoreAction> = Vec::new();
        let mut i: usize = 0;
        while i < self.snapshots.len()
            invariant
                i <= self.snapshots@.len(),
                self.wf(),
                r@.len() == i,
                forall|j: int|
                    0 <= j < i ==> #[trigger] action_view(r@[j]) == (
                        self.snapshots@[j].path@,
                        opt_text(self.snapshots@[j].content),
                    ),
            decreases self.snapshots@.len() - i,
        {
            r.push(self.snapshots[i].restore_action());
            i = i + 1;
        }
        assert(plan_view(r@) =~= rollback_plan(self.snapshots@));
        r
    }
}

/// A file system as a map from path to text; a missing key is a missing file.
pub open spec fn lookup(fs: Map<Seq<char>, Seq<char>>, p: Seq<char>) -> Option<Seq<char>> {
    if fs.contains_key(p) {
        Some(fs[p])
    } else {
        None
    }
}

/// The file system after performing a restore plan in order.
pub open spec fn apply_plan(
    fs: Map<Seq<char>, Seq<char>>,
    plan: Seq<(Seq<char>, Option<Seq<char>>)>,
) -> Map<Seq<char>, Seq<char>>
    decreases plan.len(),
{
    if plan.len() == 0 {
        fs
    } else {
        let before = apply_plan(fs, plan.drop_last());
        match plan.last().1 {
            Some(c) => before.insert(plan.last().0, c),
            None => before.remove(plan.last().0),
        }
    }
}

/// Every snapshot records its path as it stood in `fs0`.
pub open spec fn captured_from(snaps: Seq<FileSnapshot>, fs0: Map<Seq<char>, Seq<char>>) -> bool {
    forall|i: int|
        0 <= i < snaps.len() ==> opt_text((#[trigger] snaps[i]).content) == lookup(
            fs0,
            snaps[i].path@,
        )
}

proof fn lemma_apply_plan(
    fs: Map<Seq<char>, Seq<char>>,
    plan: Seq<(Seq<char>, Option<Seq<char>>)>,
    p: Seq<char>,
)
    requires
        forall|i: int, j: int| 0 <= i < j < plan.len() ==> #[trigger] plan[i].0 != #[trigger] plan[j].0,
    ensures
        forall|i: int| 0 <= i < plan.len() && #[trigger] plan[i].0 == p ==> lookup(apply_plan(fs, plan), p) == plan[i].1,
        (forall|i: int| 0 <= i < plan.len() ==> #[trigger] plan[i].0 != p) ==> lookup(apply_plan(fs, plan), p) == lookup(fs, p),
    decreases plan.len(),
{
    if plan.len() > 0 {
        let init = plan.drop_last();
        assert forall|i: int, j: int| 0 <= i < j < init.len() implies #[trigger] init[i].0 != #[trigger] init[j].0 by {
            assert(init[i] == plan[i] && init[j] == plan[j]);
        }
        lemma_apply_plan(fs, init, p);
        let before = apply_plan(fs, init);
        assert forall|i: int| 0 <= i < plan.len() && #[trigger] plan[i].0 == p implies lookup(
            apply_plan(fs, plan),
            p,
        ) == plan[i].1 by {
            if i < plan.len() - 1 {
                assert(init[i] == plan[i]);
                assert(plan[i].0 != plan[plan.len() - 1].0);
            }
        }
        if forall|i: int| 0 <= i < plan.len() ==> #[trigger] plan[i].0 != p {
            assert(plan[plan.len() - 1].0 != p);
            assert forall|i: int| 0 <= i < init.len() implies #[trigger] init[i].0 != p by {
                assert(init[i] == plan[i]);
            }
        }
    }
}

/// Rollback is exact: whatever was written in between, performing the restore
/// plan leaves every snapshotted path with its text from before the
/// transaction, or absent if it was absent then; paths never snapshotted keep
/// whatever they hold.
pub proof fn lemma_rollback_restores(t: Transaction, fs0: Map<Seq<char>, Seq<char>>, fs1: Map<Seq<char>, Seq<char>>)
    requires
        t.wf(),
        captured_from(t.snapshots@, fs0),
    ensures
        forall|p: Seq<char>|
            has_path(t.snapshots@, p) ==> #[trigger] lookup(
                apply_plan(fs1, rollback_plan(t.snapshots@)),
                p,
            ) == lookup(fs0, p),
        forall|p: Seq<char>|
            !has_path(t.snapshots@, p) ==> #[trigger] lookup(
                apply_plan(fs1, rollback_plan(t.snapshots@)),
                p,
            ) == lookup(fs1, p),
{
    let plan = rollback_plan(t.snapshots@);
    assert forall|i: int, j: int| 0 <= i < j < plan.len() implies #[trigger] plan[i].0 != #[trigger] plan[j].0 by {
        assert(t.snapshots@[i].path@ != t.snapshots@[j].path@);
    }
    assert forall|p: Seq<char>| has_path(t.snapshots@, p) implies #[trigger] lookup(
        apply_plan(fs1, plan),
        p,
    ) == lookup(fs0, p) by {
        let i = choose|i: int| 0 <= i < t.snapshots@.len() && #[trigger] t.snapshots@[i].path@ == p;
        lemma_apply_plan(fs1, plan, p);
        assert(plan[i].0 == p);
    }
    assert forall|p: Seq<char>| !has_path(t.snapshots@, p) implies #[trigger] lookup(
        apply_plan(fs1, plan),
        p,
    ) == lookup(fs1, p) by {
        lemma_apply_plan(fs1, plan, p);
        assert forall|i: int| 0 <= i < plan.len() implies #[trigger] plan[i].0 != p by {
            if plan[i].0 == p {
                assert(t.snapshots@[i].path@ == p);
            }
        }
    }
}

/// The transaction of the current turn and the sandbox that file changes must stay in.
pub struct TransactionManager {
    pub current_transaction: Option<Transaction>,
    pub sandbox_cwd: Option<String>,
}

/// A path is absolute when it starts at the root.
pub open spec fn is_absolute(p: Seq<char>) -> bool {
    p.len() > 0 && p[0] == '/'
}

pub open spec fn path_allowed(sandbox: Option<Seq<char>>, p: Seq<char>) -> bool {
    match sandbox {
        Some(cwd) => cwd.is_prefix_of(p) || !is_absolute(p),
        None => true,
    }
}

impl TransactionManager {
    pub open spec fn wf(&self) -> bool {
        match self.current_transaction {
            Some(t) => t.wf(),
            None => true,
        }
    }

    pub fn new() -> (r: TransactionManager)
        ensures
            r.wf(),
            r.current_transaction.is_none(),
            r.sandbox_cwd.is_none(),
    {
        TransactionManager { current_transaction: None, sandbox_cwd: None }
    }

    /// Restricts file changes to `cwd` (or lifts the restriction with `None`).
    pub fn set_sandbox(&mut self, cwd: Option<String>)
        ensures
            final(self).sandbox_cwd == cwd,
            final(self).current_transaction == old(self).current_transaction,
    {
        self.sandbox_cwd = cwd;
    }

    /// Opens a fresh transaction, dropping any previous one.
    pub fn begin_transaction(&mut self)
        ensures
            final(self).wf(),
            final(self).sandbox_cwd == old(self).sandbox_cwd,
            final(self).current_transaction matches Some(t) && t.snapshots@.len() == 0
                && t.modified_files@.len() == 0,
    {
        self.current_transaction = Some(Transaction::new());
    }

    /// Ends the transaction and keeps the changes.
    pub fn commit_transaction(&mut self)
        ensures
            final(self).wf(),
            final(self).sandbox_cwd == old(self).sandbox_cwd,
            final(self).current_transaction.is_none(),
    {
        self.current_transaction = None;
    }

    /// Ends the transaction and hands back the steps that undo its changes
    /// (none when no transaction is open).
    pub fn rollback_transaction(&mut self) -> (r: Vec<RestoreAction>)
        requires
            old(self).wf(),
        ensures
            final(self).wf(),
            final(self).sandbox_cwd == old(self).sandbox_cwd,
            final(self).current_transaction.is_none(),
            match old(self).current_transaction {
                Some(t) => plan_view(r@) == rollback_plan(t.snapshots@),
                None => r@.len() == 0,
            },
    {
        let r = match &self.current_transaction {
            Some(t) => t.rollback(),
            None => Vec::new(),
        };
        self.current_transaction = None;
        r
    }

    /// Whether a change to `path` is allowed: always without a sandbox; inside
    /// one, only below its directory or by a relative path.
    pub fn is_path_allowed(&self, path: &str) -> (r: bool)
        ensures
            r == path_allowed(opt_text(self.sandbox_cwd), path@),
    {
        match &self.sandbox_cwd {
            Some(cwd) => {
                let p = chars_of(path);
                let c = chars_of(cwd.as_str());
                starts_with_chars(&p, &c) || !(p.len() > 0 && p[0] == '/')
            },
            None => true,
        }
    }

    /// Checks a path before a change. `Ok(true)` asks the caller to read the file
    /// and hand its state to `record_snapshot`; `Ok(false)` means nothing is owed.
    pub fn prepare_file(&self, path: &str) -> (r: Result<bool, TransactionError>)
        ensures
            !path_allowed(opt_text(self.sandbox_cwd), path@) <==> r is Err,
            r matches Err(TransactionError::OutsideSandbox { path: p }) ==> p@ == path@,
            r matches Ok(b) ==> b == match self.current_transaction {
                Some(t) => !has_path(t.snapshots@, path@),
                None => false,
            },
    {
        if !self.is_path_allowed(path) {
            return Err(TransactionError::OutsideSandbox { path: String::from_str(path) });
        }
        match &self.current_transaction {
            Some(t) => Ok(!t.has_snapshot(path)),
            None => Ok(false),
        }
    }

    /// Hands in the state of a file read after `prepare_file` asked for it.
    pub fn record_snapshot(&mut self, snapshot: FileSnapshot)
        requires
            old(self).wf(),
            snapshot.wf(),
        ensures
            final(self).wf(),
            final(self).sandbox_cwd == old(self).sandbox_cwd,
            match (old(self).current_transaction, final(self).current_transaction) {
                (Some(a), Some(b)) => {
                    &&& b.modified_files@ == a.modified_files@
                    &&& has_path(a.snapshots@, snapshot.path@) ==> b.snapshots@ == a.snapshots@
                    &&& !has_path(a.snapshots@, snapshot.path@) ==> b.snapshots@
                        == a.snapshots@.push(snapshot)
                },
                (None, None) => true,
                _ => false,
            },
    {
        if let Some(t) = &mut self.current_transaction {
            t.snapshot_file(snapshot);
        }
    }

    /// Notes a changed path in the open transaction, if any.
    pub fn mark_file_modified(&mut self, path: &str)
        requires
            old(self).wf(),
        ensures
            final(self).wf(),
            final(self).sandbox_cwd == old(self).sandbox_cwd,
            match (old(self).current_transaction, final(self).current_transaction) {
                (Some(a), Some(b)) => {
                    &&& b.snapshots@ == a.snapshots@
                    &&& has_text(a.modified_files@, path@) ==> b.modified_files@
                        == a.modified_files@
                    &&& !has_text(a.modified_files@, path@) ==> b.modified_files@.drop_last()
                        == a.modified_files@ && b.modified_files@.last()@ == path@
                },
                (None, None) => true,
                _ => false,
            },
    {
        if let Some(t) = &mut self.current_transaction {
            t.mark_modified(path);
        }
    }

    /// Ends a file operation begun with `prepare_file`: the path is recorded as
    /// modified only when the operation succeeded.
    pub fn finish_file_operation(&mut self, path: &str, succeeded: bool)
        requires
            old(self).wf(),
        ensures
            final(self).wf(),
            final(self).sandbox_cwd == old(self).sandbox_cwd,
            !succeeded ==> final(self).current_transaction == old(self).current_transaction,
            succeeded ==> match (old(self).current_transaction, final(self).current_transaction) {
                (Some(a), Some(b)) => {
                    &&& b.snapshots@ == a.snapshots@
                    &&& has_text(a.modified_files@, path@) ==> b.modified_files@
                        == a.modified_files@
                    &&& !has_text(a.modified_files@, path@) ==> b.modified_files@.drop_last()
                        == a.modified_files@ && b.modified_files@.last()@ == path@
                },
                (None, None) => true,
                _ => false,
            },
    {
        if succeeded {
            self.mark_file_modified(path);
        }
    }

    pub fn in_transaction(&self) -> (r: bool)
        ensures
            r == self.current_transaction.is_some(),
    {
        self.current_transaction.is_some()
    }

    /// A one-line description of the open transaction.
    pub fn get_transaction_status(&self) -> (r: String)
        ensures
            r@ == match self.current_transaction {
                Some(t) => "Transaction active: "@ + decimal(t.snapshots@.len()) + " files tracked, "@
                    + decimal(t.modified_files@.len()) + " modified"@,
                None => "No active transaction"@,
            },
    {
        match &self.current_transaction {
            Some(t) => {
                let s = String::from_str("Transaction active: ");
                let s = s.concat(decimal_string(t.snapshots.len()).as_str());
                let s = s.concat(" files tracked, ");
                let s = s.concat(decimal_string(t.modified_files.len()).as_str());
                s.concat(" modified")
            },
            None => String::from_str("No active transaction"),
        }
    }
}

} // verus!
