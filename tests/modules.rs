use cef_loader::archive::{extension, strip_outcome, ArchiveError, ArchiveScan, Layout, PathPart};
use cef_loader::loader::{
    extend_search_path, free, init, on_new_map, on_new_map_loaded, ptr_result, reset, HostCall,
    LoadError, MapLoaded, PluginHost,
};
use cef_loader::paths::{join, split_asset_path};
use cef_loader::platform::{cef_download_url, cef_version, release_targets, Platform};
use cef_loader::release::{
    check_release, find_asset, needs_update, GitHubRelease, GitHubReleaseAsset,
    GitHubReleaseChecker, UpdateError, UpdatePlan,
};
use cef_loader::scheduler::{AsyncManager, Phase, RuntimeState, SchedulerError};
use cef_loader::session::{
    cleanup_ops, clip_message, current_version, handle_command, summarize, trim, ChatCommand,
    TargetOutcome,
};
use cef_loader::swap::{FsOp, StagedBundle};

fn normal(parts: &[&str]) -> Vec<PathPart> {
    parts.iter().map(|p| PathPart::Normal(p.to_string())).collect()
}

fn dest_of(scan: &mut ArchiveScan, parts: &[&str]) -> Option<(Vec<String>, bool)> {
    scan.entry(&normal(parts)).unwrap().map(|x| (x.dest, x.strip))
}

#[test]
fn step_with_nothing_ready_changes_nothing() {
    let mut m = AsyncManager::new();
    assert_eq!(m.step(), Err(SchedulerError::DispatcherNotRunning));
    m.initialize().unwrap();
    let before = m;
    for _ in 0..100 {
        assert_eq!(m.step(), Ok(()));
    }
    assert_eq!(m, before);
}

#[test]
fn double_initialize_is_refused() {
    let mut m = AsyncManager::new();
    assert!(m.initialize().unwrap().start_runtime);
    assert_eq!(m.initialize(), Err(SchedulerError::AlreadyInitialized));
    assert_eq!(m.phase, Phase::Running);
}

#[test]
fn shutdown_twice_is_a_no_op() {
    let mut m = AsyncManager::new();
    m.initialize().unwrap();
    let first = m.shutdown();
    assert!(first.stop_runtime && first.drop_dispatcher);
    let after = m;
    let second = m.shutdown();
    assert!(!second.stop_runtime && !second.drop_dispatcher);
    assert_eq!(m, after);
    m.finish_shutdown();
    assert_eq!(m.phase, Phase::Uninitialized);
    let third = m.shutdown();
    assert!(!third.stop_runtime && !third.drop_dispatcher);
}

#[test]
fn work_after_shutdown_fails_cleanly() {
    let mut m = AsyncManager::new();
    assert_eq!(m.spawn_on_main_thread(), Err(SchedulerError::DispatcherNotRunning));
    m.initialize().unwrap();
    assert_eq!(m.spawn_on_main_thread(), Ok(()));
    assert_eq!(m.run_on_main_thread(), Ok(()));
    assert_eq!(m.spawn_local_on_main_thread(), Ok(()));
    assert_eq!(m.spawn(), Ok(()));
    assert_eq!(m.spawn_blocking(), Ok(()));
    m.shutdown();
    assert_eq!(m.spawn_on_main_thread(), Err(SchedulerError::DispatcherNotRunning));
    assert_eq!(m.run_on_main_thread(), Err(SchedulerError::DispatcherNotRunning));
    assert_eq!(m.spawn_local_on_main_thread(), Err(SchedulerError::DispatcherNotRunning));
    assert_eq!(m.spawn(), Err(SchedulerError::RuntimeNotRunning));
    assert_eq!(m.step(), Err(SchedulerError::DispatcherNotRunning));
}

#[test]
fn runtime_is_not_restarted() {
    let mut m = AsyncManager::new();
    m.initialize().unwrap();
    m.shutdown();
    m.finish_shutdown();
    let again = m.initialize().unwrap();
    assert!(!again.start_runtime);
    assert_eq!(m.runtime, RuntimeState::Stopped);
    assert_eq!(m.spawn(), Err(SchedulerError::RuntimeNotRunning));
    assert_eq!(m.spawn_on_main_thread(), Ok(()));
}

#[test]
fn checker_paths() {
    let c = GitHubReleaseChecker::new(
        "Cef Loader",
        "SpiralP",
        "classicube-cef-loader-plugin",
        vec![],
    );
    assert_eq!(c.version_path(), "cef/classicube-cef-loader-plugin.txt");
    assert_eq!(
        c.url(),
        "https://api.github.com/repos/SpiralP/classicube-cef-loader-plugin/releases/latest"
    );
    assert!(c.assets().unwrap().is_empty());
}

#[test]
fn asset_path_triple() {
    let a = split_asset_path("./cef/classicube_cef_linux_x86_64.so").unwrap();
    assert_eq!(a.dir, "./cef");
    assert_eq!(a.name, "classicube_cef_linux_x86_64.so");
    assert_eq!(a.live(), "./cef/classicube_cef_linux_x86_64.so");
    assert_eq!(a.staged(), "./cef/classicube_cef_linux_x86_64.so-new");
    assert_eq!(a.retired(), "./cef/classicube_cef_linux_x86_64.so-old");
    let b = split_asset_path("cef.exe").unwrap();
    assert_eq!(b.dir, "");
    assert_eq!(b.retired(), "cef.exe-old");
    assert!(split_asset_path("cef/").is_none());
    assert!(split_asset_path("cef/..").is_none());
    assert!(split_asset_path("/a").is_none());
    assert_eq!(join("a/b", "c"), "a/b/c");
}

#[test]
fn invalid_asset_path_is_an_error() {
    let c = GitHubReleaseChecker::new("X", "o", "r", vec!["ok/a".into(), "bad/".into()]);
    assert!(matches!(c.assets(), Err(UpdateError::InvalidAssetPath(ref p)) if p == "bad/"));
}

#[test]
fn cleanup_removes_retired_files() {
    let c = GitHubReleaseChecker::new("X", "o", "r", vec!["p/a".into(), "b".into()]);
    let ops = cleanup_ops(&c.assets().unwrap());
    assert_eq!(ops.len(), 2);
    assert!(matches!(&ops[0], FsOp::Remove { path } if path == "p/a-old"));
    assert!(matches!(&ops[1], FsOp::Remove { path } if path == "b-old"));
}

fn asset(name: &str) -> GitHubReleaseAsset {
    GitHubReleaseAsset {
        browser_download_url: format!("https://example.invalid/{name}"),
        name: name.to_string(),
        size: 1,
    }
}

#[test]
fn release_with_message_is_an_error() {
    let r = GitHubRelease {
        message: Some("Not Found".into()),
        tag_name: String::new(),
        assets: vec![],
        published_at: String::new(),
    };
    assert!(matches!(check_release(r), Err(UpdateError::Api(ref m)) if m == "Not Found"));
    let ok = GitHubRelease {
        message: None,
        tag_name: "v1".into(),
        assets: vec![asset("a")],
        published_at: "2024-01-01T00:00:00Z".into(),
    };
    assert_eq!(check_release(ok).unwrap().tag_name, "v1");
}

#[test]
fn first_matching_asset_is_found() {
    let r = GitHubRelease {
        message: None,
        tag_name: "v".into(),
        assets: vec![asset("x"), asset("a"), asset("a")],
        published_at: "t".into(),
    };
    assert_eq!(find_asset(&r, &"a".to_string()), Some(1));
    assert_eq!(find_asset(&r, &"z".to_string()), None);
}

#[test]
fn version_comparison() {
    let v = "2024".to_string();
    assert!(!needs_update(false, &Some("2024".into()), &v));
    assert!(needs_update(false, &Some("2023".into()), &v));
    assert!(needs_update(false, &None, &v));
    assert!(needs_update(true, &Some("2024".into()), &v));
}

#[test]
fn plan_lists_sources_and_marker() {
    let c = GitHubReleaseChecker::new("Cef", "o", "plug", vec!["cef/p.so".into(), "cef/e".into()]);
    let assets = c.assets().unwrap();
    let r = GitHubRelease {
        message: None,
        tag_name: "v".into(),
        assets: vec![asset("e"), asset("p.so")],
        published_at: "T2".into(),
    };
    match c.plan_update(&assets, false, &Some("T1".into()), &r).unwrap() {
        UpdatePlan::Update { sources, marker } => {
            assert_eq!(sources, vec![1, 0]);
            assert!(
                matches!(marker, FsOp::Write { ref path, ref text } if path == "cef/plug.txt" && text == "T2")
            );
        }
        UpdatePlan::UpToDate => panic!("expected an update"),
    }
    assert!(matches!(
        c.plan_update(&assets, false, &Some("T2".into()), &r),
        Ok(UpdatePlan::UpToDate)
    ));
}

#[test]
fn marker_text_is_trimmed() {
    assert_eq!(current_version(&Some("  2024-01-01\n".into())), Some("2024-01-01".to_string()));
    assert_eq!(current_version(&None), None);
    assert_eq!(current_version(&Some("\u{3000}2\u{a0}\t".into())), Some("2".to_string()));
    assert_eq!(current_version(&Some(" \n ".into())), Some(String::new()));
    assert_eq!(trim("a b"), "a b");
}

#[test]
fn archive_allow_list_flat() {
    let mut scan = ArchiveScan::new(Layout::Flat);
    let top = "cef_binary_1_linux64_minimal";
    assert_eq!(
        dest_of(&mut scan, &[top, "README.txt"]),
        Some((vec!["README.txt".to_string()], false))
    );
    assert_eq!(
        dest_of(&mut scan, &[top, "Release", "libcef.so"]),
        Some((vec!["libcef.so".to_string()], true))
    );
    assert_eq!(
        dest_of(&mut scan, &[top, "Release", "snapshot_blob.bin"]),
        Some((vec!["snapshot_blob.bin".to_string()], false))
    );
    assert_eq!(
        dest_of(&mut scan, &[top, "Resources", "locales", "en-US.pak"]),
        Some((vec!["locales".to_string(), "en-US.pak".to_string()], false))
    );
    assert_eq!(dest_of(&mut scan, &[top, "Release", "notes.md"]), None);
    assert_eq!(dest_of(&mut scan, &[top, "include", "cef.h"]), None);
    assert_eq!(dest_of(&mut scan, &[top]), None);
    assert_eq!(
        scan.entry(&normal(&["other_top", "README.txt"])).err(),
        Some(ArchiveError::MixedTopLevel)
    );
    assert_eq!(scan.entry(&vec![]).err(), Some(ArchiveError::UnsafeComponent));
    assert_eq!(
        scan.entry(&vec![PathPart::RootDir, PathPart::Normal("etc".into())]).err(),
        Some(ArchiveError::UnsafeComponent)
    );
    assert_eq!(
        scan.entry(&normal(&[top, "Release", "a/b.so"])).err(),
        Some(ArchiveError::UnsafeComponent)
    );
}

#[test]
fn archive_allow_list_framework() {
    let mut scan = ArchiveScan::new(Layout::Framework);
    let fw = "Chromium Embedded Framework.framework";
    assert_eq!(
        dest_of(&mut scan, &["top", "Release", fw, "Libraries", "libEGL.dylib"]),
        Some((vec!["Libraries".to_string(), "libEGL.dylib".to_string()], false))
    );
    assert_eq!(dest_of(&mut scan, &["top", "Release", "libcef.so"]), None);
    assert_eq!(
        dest_of(&mut scan, &["top", "LICENSE.txt"]),
        Some((vec!["LICENSE.txt".to_string()], false))
    );
}

#[test]
fn file_extensions() {
    assert_eq!(extension("libcef.so"), Some("so"));
    assert_eq!(extension("a.b.pak"), Some("pak"));
    assert_eq!(extension(".so"), None);
    assert_eq!(extension("Release"), None);
    assert_eq!(extension("x."), Some(""));
}

#[test]
fn failed_strip_is_fatal() {
    assert_eq!(strip_outcome(true, false), Err(ArchiveError::StripFailed));
    assert_eq!(strip_outcome(true, true), Ok(()));
    assert_eq!(strip_outcome(false, false), Err(ArchiveError::StripFailed));
    assert_eq!(strip_outcome(false, true), Err(ArchiveError::StripFailed));
}

#[test]
fn runtime_download_url_escapes_plus() {
    let p = Platform::LinuxX86_64;
    let v = cef_version(p.cef_release(), p.cef_arch());
    assert_eq!(v, "cef_binary_134.3.8+gfe66d80+chromium-134.0.6998.166_linux64_minimal");
    assert_eq!(
        cef_download_url(&v),
        "https://cef-builds.spotifycdn.com/cef_binary_134.3.8%2Bgfe66d80%2Bchromium-134.0.6998.166_linux64_minimal.tar.bz2"
    );
    let old = Platform::LinuxI686;
    assert_eq!(
        cef_version(old.cef_release(), old.cef_arch()),
        "cef_binary_101.0.18+g367b4a0+chromium-101.0.4951.67_linux32_minimal"
    );
}

#[test]
fn platform_tables() {
    assert_eq!(Platform::MacosX86_64.layout(), Layout::Framework);
    assert_eq!(Platform::WindowsX86_64.layout(), Layout::Flat);
    let b = Platform::LinuxX86_64.cef_bundle();
    assert_eq!(b.live, "cef/cef_binary");
    assert_eq!(b.staged, "cef/cef_binary-new");
    assert_eq!(b.marker, "cef/cef_binary.txt");
    assert_eq!(b.marker_staged, "cef/cef_binary.txt-new");
    let m = Platform::MacosX86_64.cef_bundle();
    assert_eq!(m.staged, "cef/Chromium Embedded Framework.framework-new");
    let p = Platform::WindowsX86_64;
    let t = release_targets(p.loader_path(), p.plugin_path(), p.exe_path());
    assert_eq!(t.len(), 2);
    assert_eq!(t[0].asset_paths, vec!["plugins/classicube_cef_loader_windows_x86_64.dll".to_string()]);
    assert_eq!(t[1].repo, "classicube-cef-plugin");
    assert_eq!(t[1].asset_paths[1], "cef/cef-windows-x86_64.exe");
}

#[test]
fn bundle_update_decision() {
    let want = "v2".to_string();
    let some = |s: &str| Some(s.to_string());
    assert!(!StagedBundle::needs_update(true, &some("v2"), &want));
    assert!(StagedBundle::needs_update(true, &some("v1"), &want));
    assert!(StagedBundle::needs_update(true, &None, &want));
    assert!(StagedBundle::needs_update(false, &some("v2"), &want));
}

#[test]
fn bundle_download_begins_by_dropping_half_marker() {
    let b = Platform::LinuxX86_64.cef_bundle();
    let ops = b.begin(true, true);
    assert_eq!(ops.len(), 2);
    assert!(matches!(&ops[0], FsOp::Remove { path } if path == "cef/cef_binary.txt-new"));
    assert!(matches!(&ops[1], FsOp::Remove { path } if path == "cef/cef_binary-new"));
    assert!(b.begin(false, false).is_empty());
    assert!(matches!(b.finish(&"v2".to_string()), FsOp::Write { path, text } if path == "cef/cef_binary.txt-new" && text == "v2"));
}

#[test]
fn chat_commands() {
    let args = |v: &[&str]| v.iter().map(|s| s.to_string()).collect::<Vec<_>>();
    assert_eq!(handle_command(&args(&["update"])), ChatCommand::Update);
    assert_eq!(handle_command(&args(&["check"])), ChatCommand::Update);
    assert_eq!(handle_command(&args(&["panic"])), ChatCommand::Crash);
    assert_eq!(handle_command(&args(&["crash"])), ChatCommand::Crash);
    assert_eq!(handle_command(&args(&[])), ChatCommand::Usage);
    assert_eq!(handle_command(&args(&["update", "now"])), ChatCommand::Usage);
    assert_eq!(handle_command(&args(&["Update"])), ChatCommand::Usage);
}

#[test]
fn session_summary() {
    let s = summarize(&vec![
        TargetOutcome::UpToDate,
        TargetOutcome::Failed,
        TargetOutcome::Updated,
        TargetOutcome::Failed,
    ]);
    assert!(s.had_updates);
    assert_eq!(s.failures, 2);
    let s = summarize(&vec![TargetOutcome::UpToDate, TargetOutcome::UpToDate]);
    assert!(!s.had_updates);
    assert_eq!(s.failures, 0);
    assert_eq!(summarize(&vec![]).failures, 0);
}

#[test]
fn plugin_host_lifecycle() {
    let mut h = PluginHost::new();
    assert_eq!(on_new_map_loaded(&mut h), MapLoaded::StartSession);
    assert_eq!(on_new_map_loaded(&mut h), MapLoaded::Forward(None));
    assert_eq!(init(&mut h, true), Some(HostCall::Init));
    assert_eq!(reset(&h), Some(HostCall::Reset));
    assert_eq!(on_new_map(&h), Some(HostCall::OnNewMap));
    assert_eq!(on_new_map_loaded(&mut h), MapLoaded::Forward(Some(HostCall::OnNewMapLoaded)));
    assert_eq!(free(&mut h), Some(HostCall::Free));
    assert_eq!(free(&mut h), None);
    assert_eq!(reset(&h), None);
    let mut failed = PluginHost::new();
    assert_eq!(init(&mut failed, false), None);
    assert!(!failed.plugin_loaded);
}

#[test]
fn null_address_is_an_error() {
    assert_eq!(ptr_result(0), Err(LoadError::Null));
    assert_eq!(ptr_result(4096), Ok(4096));
}

#[test]
fn search_path_is_extended() {
    assert_eq!(
        extend_search_path(&Some("/usr/lib".into()), ":", "cef/cef_binary"),
        "/usr/lib:cef/cef_binary"
    );
    assert_eq!(extend_search_path(&None, ":", "cef/cef_binary"), "cef/cef_binary");
}

#[test]
fn long_messages_are_clipped() {
    assert_eq!(clip_message("short"), "short");
    let ascii = "x".repeat(300);
    assert_eq!(clip_message(&ascii).len(), 255);
    let wide = "é".repeat(200);
    let clipped = clip_message(&wide);
    assert_eq!(clipped.len(), 254);
    assert_eq!(clipped, "é".repeat(127));
    let exact = "y".repeat(255);
    assert_eq!(clip_message(&exact), exact);
}
