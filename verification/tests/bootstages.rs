use kitsune::bootstages::{
    alt_bin_dir, app_bin_dir, binary_name, boot_complete, check_data, late_start, needed_name,
    post_fs_data, sdcardfs_targets, setup_magisk_env, storage_peer_group, BootFlag, BootState,
    EnvQuery, EnvWork, LateWork, PostFsAnswer, PostFsPhase, PostFsWork, Stage,
};
use kitsune::daemon::Request;
use kitsune::mount::MountInfo;

const FLAGS: [BootFlag; 4] = [
    BootFlag::PostFsDataDone,
    BootFlag::LateStartDone,
    BootFlag::BootComplete,
    BootFlag::SafeMode,
];

#[test]
fn flags_are_independent() {
    for a in FLAGS {
        let mut s = BootState::new();
        assert!(!s.contains(a));
        s.insert(a);
        for b in FLAGS {
            assert_eq!(s.contains(b), a == b);
        }
    }
}

#[test]
fn stages_run_in_order() {
    let mut s = BootState::new();
    assert!(s.start_stage(Request::LateStart, true).is_none());
    assert!(s.start_stage(Request::BootComplete, true).is_none());
    assert!(s.start_stage(Request::PostFsData, false).is_none());
    assert!(s.start_stage(Request::PostFsData, true) == Some(Stage::PostFsData));
    s.finish_stage(Stage::PostFsData, false);
    assert!(s.start_stage(Request::PostFsData, true).is_none());
    assert!(s.start_stage(Request::LateStart, true) == Some(Stage::LateStart));
    s.finish_stage(Stage::LateStart, false);
    assert!(s.contains(BootFlag::LateStartDone));
    assert!(s.start_stage(Request::BootComplete, false) == Some(Stage::BootComplete));
    s.finish_stage(Stage::BootComplete, false);
    assert!(s.contains(BootFlag::BootComplete) && !s.contains(BootFlag::SafeMode));
    assert!(s.start_stage(Request::Zygisk, true).is_none());
}

#[test]
fn safe_mode_skips_the_second_stage() {
    let mut s = BootState::new();
    s.finish_stage(Stage::PostFsData, true);
    assert!(s.contains(BootFlag::SafeMode) && s.contains(BootFlag::PostFsDataDone));
    assert!(s.start_stage(Request::LateStart, true).is_none());
    assert!(s.start_stage(Request::BootComplete, true) == Some(Stage::BootComplete));
}

fn environment(answer: impl Fn(EnvQuery) -> bool) -> (Vec<EnvWork>, bool) {
    let mut work = Vec::new();
    let mut q = EnvQuery::AltDir(0);
    loop {
        if let EnvQuery::Done(ok) = q {
            return (work, ok);
        }
        let (w, next) = setup_magisk_env(q, answer(q));
        if w != EnvWork::Nothing {
            work.push(w);
        }
        q = next;
    }
}

#[test]
fn environment_needs_busybox() {
    let (work, ok) = environment(|q| q == EnvQuery::AltDir(1));
    assert!(!ok);
    assert!(work == vec![EnvWork::Migrate(1)]);
}

#[test]
fn environment_is_set_up() {
    let (work, ok) = environment(|_| true);
    assert!(ok);
    let mut expected: Vec<EnvWork> = (0..3).map(EnvWork::Migrate).collect();
    expected.push(EnvWork::InstallBusybox);
    expected.extend((0..6).map(EnvWork::Copy));
    assert!(work == expected);
    let (work, ok) = environment(|q| {
        matches!(q, EnvQuery::Busybox | EnvQuery::ZygiskOn | EnvQuery::Arrived(1))
    });
    assert!(ok);
    assert!(
        work == vec![
            EnvWork::InstallBusybox,
            EnvWork::Warn(0),
            EnvWork::Warn(2),
            EnvWork::Warn(3)
        ]
    );
    let (work, ok) = environment(|q| q == EnvQuery::Busybox);
    assert!(ok && work == vec![EnvWork::InstallBusybox]);
}

#[test]
fn names_of_files() {
    assert_eq!(
        app_bin_dir("/data/user_de", "io.example"),
        "/data/user_de/0/io.example/install"
    );
    assert_eq!(alt_bin_dir(0), Some("/cache/data_adb/magisk"));
    assert_eq!(alt_bin_dir(1), Some("/data/magisk"));
    assert_eq!(alt_bin_dir(2), None);
    let names: Vec<&str> = (0..6).map(binary_name).collect();
    assert_eq!(
        names,
        ["magisk32", "magisk64", "magisk", "magiskpolicy", "zygisk_inject", "zygisk_inject32"]
    );
    for i in 0..4 {
        assert!(names.contains(&needed_name(i)));
    }
    assert_eq!(needed_name(0), "magisk");
}

fn count(count: i32, persist: &str, ro: &str) -> PostFsAnswer {
    PostFsAnswer::Count {
        count,
        persist_safemode: persist.to_string(),
        ro_safemode: ro.to_string(),
    }
}

#[test]
fn first_stage_without_data_directory() {
    let yes = |b| PostFsAnswer::Yes(b);
    assert!(
        post_fs_data(PostFsPhase::SecureDir, yes(false), 24)
            == (PostFsWork::Nothing, PostFsPhase::Done(true))
    );
    assert!(
        post_fs_data(PostFsPhase::SecureDir, yes(false), 23)
            == (PostFsWork::PruneGrants { make_dir: true }, PostFsPhase::Environment)
    );
    assert!(
        post_fs_data(PostFsPhase::SecureDir, yes(true), 30)
            == (PostFsWork::PruneGrants { make_dir: false }, PostFsPhase::Environment)
    );
    assert!(
        post_fs_data(PostFsPhase::Environment, yes(false), 30)
            == (PostFsWork::Nothing, PostFsPhase::Done(true))
    );
}

#[test]
fn first_stage_safe_mode() {
    for (c, p, r, safe) in [
        (0, "", "", false),
        (1, "0", "0", false),
        (2, "", "", true),
        (0, "1", "", true),
        (0, "", "1", true),
    ] {
        let (work, next) = post_fs_data(PostFsPhase::Bootloop, count(c, p, r), 30);
        if safe {
            assert!(work == PostFsWork::StoreCountAndDisable(c + 1));
            assert!(next == PostFsPhase::Done(true));
        } else {
            assert!(work == PostFsWork::StoreCount(c + 1));
            assert!(next == PostFsPhase::KeyCombo);
        }
    }
    assert!(
        post_fs_data(PostFsPhase::KeyCombo, PostFsAnswer::Yes(true), 30)
            == (PostFsWork::DisableModules, PostFsPhase::Done(true))
    );
}

#[test]
fn first_stage_to_the_end() {
    let mut phase = PostFsPhase::SecureDir;
    let mut work = Vec::new();
    for a in [
        PostFsAnswer::Yes(true),
        PostFsAnswer::Yes(true),
        count(0, "", ""),
        PostFsAnswer::Yes(false),
        PostFsAnswer::Config(1),
        PostFsAnswer::Yes(false),
    ] {
        let (w, next) = post_fs_data(phase, a, 30);
        work.push(w);
        phase = next;
    }
    assert!(phase == PostFsPhase::Done(false));
    assert!(work[3] == PostFsWork::RunScripts);
    assert!(work[4] == PostFsWork::LoadModules { zygisk: true });
    assert!(work[5] == PostFsWork::Finish { link: true, monitor: true });
}

#[test]
fn later_stages() {
    assert!(late_start(false) == vec![LateWork::SetupLog, LateWork::RunCommonScripts]);
    assert!(late_start(true).last() == Some(&LateWork::RunModuleScripts));
    assert!(
        boot_complete(true, true, false)
            == vec![
                LateWork::SetupLog,
                LateWork::ResetCount,
                LateWork::EnableMountSu,
                LateWork::SetupPreinitDir,
                LateWork::EnsureManager
            ]
    );
    let all = boot_complete(false, false, true);
    assert!(all.contains(&LateWork::MakeWorkerDir) && all.contains(&LateWork::MakeSecureDir));
    assert!(all.last() == Some(&LateWork::ResetZygisk));
}

#[test]
fn data_partition() {
    let mounts: Vec<String> =
        vec!["tmpfs /data tmpfs rw".to_string(), "/dev/block/dm-1 /data f2fs rw 0 0".to_string()];
    assert!(check_data(&mounts, "", ""));
    assert!(check_data(&mounts, "unencrypted", ""));
    assert!(!check_data(&mounts, "encrypted", ""));
    assert!(check_data(&mounts, "encrypted", "running"));
    assert!(!check_data(&mounts[..1], "", ""));
    assert!(!check_data(&[], "", ""));
}

#[test]
fn storage_is_looked_at() {
    let text = "1 2 0:3 / / rw shared:1 - x\n4 5 0:6 / /storage rw,nosuid shared:42 master:7 - t";
    assert_eq!(storage_peer_group(text), Some("shared:42".to_string()));
    assert_eq!(storage_peer_group("4 5 0:6 / /storage rw - t"), None);
    assert_eq!(storage_peer_group(""), None);
    let mount = |t: &str, f: &str| MountInfo {
        device: 0,
        root: "/".to_string(),
        target: t.to_string(),
        fs_type: f.to_string(),
        source: "none".to_string(),
        fs_option: "rw".to_string(),
    };
    let v = vec![mount("/a", "sdcardfs"), mount("/b", "ext4"), mount("/c", "sdcardfs")];
    assert_eq!(sdcardfs_targets(&v), vec!["/a".to_string(), "/c".to_string()]);
}
