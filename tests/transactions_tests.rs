use std::collections::HashMap;
use grok_cli::transactions::{FileSnapshot, RestoreAction, Transaction, TransactionManager};

type Fs = HashMap<String, String>;

fn apply(fs: &mut Fs, plan: &[RestoreAction]) {
    for a in plan {
        match a {
            RestoreAction::Write { path, content } => {
                fs.insert(path.clone(), content.clone());
            }
            RestoreAction::Remove { path } => {
                fs.remove(path);
            }
        }
    }
}

fn touch(mgr: &mut TransactionManager, fs: &Fs, path: &str) {
    if mgr.prepare_file(path).unwrap() {
        mgr.record_snapshot(FileSnapshot::captured(path.to_string(), fs.get(path).cloned(), None));
    }
    mgr.mark_file_modified(path);
}

#[test]
fn rollback_restores_every_touched_path() {
    let mut fs: Fs = HashMap::new();
    fs.insert("a.txt".to_string(), "old a".to_string());
    fs.insert("keep.txt".to_string(), "untouched".to_string());
    let before = fs.clone();
    let mut mgr = TransactionManager::new();
    mgr.begin_transaction();
    for round in 0..3 {
        touch(&mut mgr, &fs, "a.txt");
        fs.insert("a.txt".to_string(), format!("edit {}", round));
        touch(&mut mgr, &fs, "new.txt");
        fs.insert("new.txt".to_string(), format!("created {}", round));
    }
    assert_eq!(mgr.get_transaction_status(), "Transaction active: 2 files tracked, 2 modified");
    let plan = mgr.rollback_transaction();
    assert_eq!(plan.len(), 2);
    apply(&mut fs, &plan);
    assert_eq!(fs, before);
    assert!(!mgr.in_transaction());
    assert_eq!(mgr.get_transaction_status(), "No active transaction");
}

#[test]
fn first_snapshot_wins() {
    let mut t = Transaction::new();
    t.snapshot_file(FileSnapshot::captured("p".to_string(), Some("first".to_string()), None));
    t.snapshot_file(FileSnapshot::captured("p".to_string(), Some("second".to_string()), None));
    assert_eq!(t.snapshots.len(), 1);
    assert_eq!(t.snapshots[0].content.as_deref(), Some("first"));
    assert!(t.has_snapshot("p"));
    t.mark_modified("p");
    t.mark_modified("p");
    assert_eq!(t.modified_files.len(), 1);
    let plan = t.rollback();
    assert!(matches!(&plan[0], RestoreAction::Write { content, .. } if content == "first"));
}

#[test]
fn commit_discards_snapshots() {
    let mut mgr = TransactionManager::new();
    mgr.begin_transaction();
    assert!(mgr.prepare_file("x").unwrap());
    mgr.record_snapshot(FileSnapshot::captured("x".to_string(), None, None));
    mgr.commit_transaction();
    assert!(mgr.rollback_transaction().is_empty());
    assert!(!mgr.prepare_file("x").unwrap());
}

#[test]
fn sandbox_refuses_outside_absolute_paths() {
    let mut mgr = TransactionManager::new();
    mgr.set_sandbox(Some("/home/u/project".to_string()));
    let err = mgr.prepare_file("/etc/passwd").unwrap_err();
    assert_eq!(err.message(), "Cannot modify files outside of sandbox: /etc/passwd");
    assert!(mgr.is_path_allowed("/home/u/project/src/main.rs"));
    assert!(mgr.is_path_allowed("relative/file.txt"));
    assert!(!mgr.is_path_allowed("/tmp/x"));
}

#[test]
fn snapshot_of_missing_file_removes_it_on_rollback() {
    let s = FileSnapshot::captured("gone.txt".to_string(), None, None);
    assert!(!s.exists);
    assert!(matches!(s.restore_action(), RestoreAction::Remove { path } if path == "gone.txt"));
}
