use std::collections::BTreeMap;

use cef_loader::archive::{ArchiveError, ArchiveScan, Layout, PathPart};
use cef_loader::paths::split_asset_path;
use cef_loader::release::{GitHubRelease, GitHubReleaseAsset, GitHubReleaseChecker, UpdatePlan};
use cef_loader::session::cleanup_ops;
use cef_loader::swap::{prepare, CommitStep, FsOp, StagedBundle};
use cef_loader::target::{TargetAction, TargetRun};

type Tree = BTreeMap<String, String>;

/// Performs `op` on the tree; a rename away from `locked` is refused.
fn apply(t: &mut Tree, op: &FsOp, locked: Option<&str>) -> bool {
    match op {
        FsOp::Rename { from, to } => {
            if locked == Some(from.as_str()) || from == to {
                return false;
            }
            match t.remove(from) {
                Some(v) => {
                    t.insert(to.clone(), v);
                    true
                }
                None => false,
            }
        }
        FsOp::Remove { path } => t.remove(path).is_some(),
        FsOp::Write { path, text } => {
            t.insert(path.clone(), text.clone());
            true
        }
    }
}

fn bundle() -> StagedBundle {
    StagedBundle {
        live: "cef/cef_binary".to_string(),
        staged: "cef/cef_binary-new".to_string(),
        marker: "cef/cef_binary.txt".to_string(),
        marker_staged: "cef/cef_binary.txt-new".to_string(),
    }
}

fn run_prepare(t: &mut Tree, b: &StagedBundle) {
    let ops = prepare(
        b,
        t.contains_key(&b.marker_staged),
        t.contains_key(&b.staged),
        t.contains_key(&b.live),
    );
    for op in &ops {
        assert!(apply(t, op, None));
    }
}

fn release(published_at: &str, names: &[&str]) -> GitHubRelease {
    GitHubRelease {
        message: None,
        tag_name: format!("v{published_at}"),
        assets: names
            .iter()
            .map(|n| GitHubReleaseAsset {
                browser_download_url: format!("https://example.invalid/{n}"),
                name: n.to_string(),
                size: 10,
            })
            .collect(),
        published_at: published_at.to_string(),
    }
}

/// One update session of `checker` on the tree, downloading `payload` for
/// every file; returns whether the target was updated.
fn run_session(
    t: &mut Tree,
    checker: &GitHubReleaseChecker,
    rel: &GitHubRelease,
    payload: &str,
    locked: Option<&str>,
) -> bool {
    let assets = checker.assets().unwrap();
    for op in &cleanup_ops(&assets) {
        apply(t, op, None);
    }
    let missing = assets.iter().any(|a| !t.contains_key(&a.live()));
    let current = t.get(&checker.version_path()).cloned();
    let plan = checker.plan_update(&assets, missing, &current, rel).unwrap();
    let (sources, marker) = match plan {
        UpdatePlan::UpToDate => return false,
        UpdatePlan::Update { sources, marker } => (sources, marker),
    };
    let mut run = TargetRun::new(assets.len());
    loop {
        match run.action(&assets, &sources, &marker) {
            TargetAction::Download { index, .. } => {
                t.insert(assets[index].staged(), payload.to_string());
                let live = t.contains_key(&assets[index].live());
                run.advance(true, live);
            }
            TargetAction::Apply(op) => {
                let ok = apply(t, &op, locked);
                run.advance(ok, false);
            }
            TargetAction::Done(updated) => return updated,
        }
    }
}

#[test]
fn prepare_twice_is_prepare_once() {
    let b = bundle();
    let mut t = Tree::new();
    t.insert(b.live.clone(), "old".into());
    t.insert(b.staged.clone(), "new".into());
    t.insert(b.marker.clone(), "v1".into());
    t.insert(b.marker_staged.clone(), "v2".into());
    let mut once = t.clone();
    run_prepare(&mut once, &b);
    let mut twice = once.clone();
    run_prepare(&mut twice, &b);
    assert_eq!(once, twice);
}

#[test]
fn prepare_finishes_an_interrupted_commit() {
    let b = bundle();
    let mut t = Tree::new();
    t.insert(b.live.clone(), "old".into());
    t.insert(b.staged.clone(), "new".into());
    t.insert(b.marker_staged.clone(), "v2".into());
    run_prepare(&mut t, &b);
    assert_eq!(t.get(&b.live).map(String::as_str), Some("new"));
    assert_eq!(t.get(&b.marker).map(String::as_str), Some("v2"));
    assert!(!t.contains_key(&b.staged));
    assert!(!t.contains_key(&b.marker_staged));
}

#[test]
fn prepare_without_half_marker_does_nothing() {
    let b = bundle();
    let ops = prepare(&b, false, true, true);
    assert!(ops.is_empty());
}

#[test]
fn update_replaces_live_file_and_writes_marker() {
    let checker = GitHubReleaseChecker::new("A", "owner", "A", vec!["bin/a".to_string()]);
    let rel = release("2", &["a"]);
    let mut t = Tree::new();
    t.insert("bin/a".into(), "payload-1".into());
    t.insert("cef/A.txt".into(), "1".into());
    assert!(run_session(&mut t, &checker, &rel, "payload-2", None));
    assert_eq!(t.get("bin/a").map(String::as_str), Some("payload-2"));
    assert_eq!(t.get("cef/A.txt").map(String::as_str), Some("2"));
    assert!(!t.contains_key("bin/a-old"));
    assert!(!t.contains_key("bin/a-new"));
    // the next session finds nothing to do
    assert!(!run_session(&mut t, &checker, &rel, "payload-2", None));
}

#[test]
fn locked_live_file_is_deleted_then_replaced() {
    let checker = GitHubReleaseChecker::new("A", "owner", "A", vec!["bin/a".to_string()]);
    let rel = release("2", &["a"]);
    let mut unlocked = Tree::new();
    unlocked.insert("bin/a".into(), "payload-1".into());
    unlocked.insert("cef/A.txt".into(), "1".into());
    let mut locked = unlocked.clone();
    assert!(run_session(&mut unlocked, &checker, &rel, "payload-2", None));
    assert!(run_session(&mut locked, &checker, &rel, "payload-2", Some("bin/a")));
    assert_eq!(locked, unlocked);
    assert_eq!(locked.get("bin/a").map(String::as_str), Some("payload-2"));
    assert!(!locked.contains_key("bin/a-old"));
}

#[test]
fn up_to_date_target_writes_nothing() {
    let checker = GitHubReleaseChecker::new("A", "owner", "A", vec!["bin/a".to_string()]);
    let rel = release("2", &["a"]);
    let mut t = Tree::new();
    t.insert("bin/a".into(), "payload-2".into());
    t.insert("cef/A.txt".into(), "2".into());
    let before = t.clone();
    assert!(!run_session(&mut t, &checker, &rel, "other", None));
    assert_eq!(t, before);
}

#[test]
fn missing_asset_forces_update() {
    let checker = GitHubReleaseChecker::new("A", "owner", "A", vec!["bin/a".to_string()]);
    let rel = release("2", &["a"]);
    let mut t = Tree::new();
    t.insert("cef/A.txt".into(), "2".into());
    assert!(run_session(&mut t, &checker, &rel, "payload-2", None));
    assert_eq!(t.get("bin/a").map(String::as_str), Some("payload-2"));
}

#[test]
fn asset_missing_from_release_is_an_error() {
    let checker = GitHubReleaseChecker::new("A", "owner", "A", vec!["bin/a".to_string()]);
    let assets = checker.assets().unwrap();
    let rel = release("2", &["b"]);
    let r = checker.plan_update(&assets, false, &Some("1".to_string()), &rel);
    assert!(matches!(r, Err(cef_loader::release::UpdateError::MissingAsset(ref n)) if n == "a"));
}

#[test]
fn commit_falls_back_to_delete() {
    let a = split_asset_path("bin/a").unwrap();
    let s = CommitStep::start(true);
    assert_eq!(s, CommitStep::RetireLive);
    assert!(matches!(s.op(&a), Some(FsOp::Rename { ref from, ref to }) if from == "bin/a" && to == "bin/a-old"));
    let s = s.next(false);
    assert_eq!(s, CommitStep::RemoveLive);
    let s2 = s.next(false);
    assert_eq!(s2, CommitStep::LiveLocked);
    assert!(s2.is_finished());
    let s = s.next(true);
    assert_eq!(s, CommitStep::Promote);
    assert!(matches!(s.op(&a), Some(FsOp::Rename { ref from, ref to }) if from == "bin/a-new" && to == "bin/a"));
    assert_eq!(s.next(false), CommitStep::PromoteFailed);
    let s = s.next(true);
    assert_eq!(s, CommitStep::DropRetired);
    assert!(matches!(s.op(&a), Some(FsOp::Remove { ref path }) if path == "bin/a-old"));
    assert_eq!(s.next(true), CommitStep::Done);
    assert_eq!(s.next(false), CommitStep::Done);
}

fn parts(path: &str) -> Vec<PathPart> {
    path.split('/')
        .map(|p| match p {
            ".." => PathPart::ParentDir,
            "." => PathPart::CurDir,
            "" => PathPart::RootDir,
            n => PathPart::Normal(n.to_string()),
        })
        .collect()
}

#[test]
fn parent_dir_entry_fails_the_archive() {
    let mut scan = ArchiveScan::new(Layout::Flat);
    assert!(matches!(scan.entry(&parts("top/README.txt")), Ok(Some(_))));
    assert_eq!(scan.entry(&parts("../etc/passwd")).err(), Some(ArchiveError::UnsafeComponent));
    assert_eq!(scan.entry(&parts("top/Release/../../x.so")).err(), Some(ArchiveError::UnsafeComponent));
}
