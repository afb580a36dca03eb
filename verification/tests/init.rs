use kitsune::init::boot::{
    base_name, first_stage, first_stage_fallback, is_charger, legacy_system_as_root,
    recovery_or_charger, restore_ramdisk_init, role, rootfs, second_stage, BootPath, InitSource, InitStep, MagiskInit,
    Role, StartAnswer, StartPhase,
};
use kitsune::init::env_detect::{get_prop, is_virtual_cmdline, is_virtual_model};

fn files(v: &[Option<&str>]) -> Vec<Option<String>> {
    v.iter().map(|f| f.map(String::from)).collect()
}

#[test]
fn properties_come_from_the_command_line_first() {
    let f = files(&[None, Some("# ro.x=comment\n\n ro.x = one \nro.x=two"), Some("ro.y=three")]);
    assert_eq!(get_prop(Some("quiet ro.x=zero ro.x=1"), &f, "ro.x"), "zero");
    assert_eq!(get_prop(Some("quiet"), &f, "ro.x"), "one");
    assert_eq!(get_prop(None, &f, "ro.y"), "three");
    assert_eq!(get_prop(None, &f, "ro.z"), "");
    assert_eq!(get_prop(Some("ro.x"), &[], "ro.x"), "");
    assert_eq!(get_prop(None, &files(&[Some("a=b=c")]), "a"), "b=c");
}

#[test]
fn virtual_phones_are_recognised() {
    assert!(is_virtual_model("my vphone"));
    assert!(is_virtual_model("VPhone 3"));
    assert!(is_virtual_model("titan"));
    assert!(!is_virtual_model("Vphone"));
    assert!(is_virtual_cmdline("console=ttyS0 titan"));
    assert!(is_virtual_cmdline("vphone=1"));
    assert!(!is_virtual_cmdline("VPhone"));
}

fn boot_mode(s: &[u8]) -> [u8; 16] {
    let mut m = [0u8; 16];
    m[..s.len()].copy_from_slice(s);
    m
}

#[test]
fn charger_mode() {
    assert!(is_charger(&boot_mode(b"charger")));
    assert!(is_charger(&boot_mode(b"charger\0x")));
    assert!(!is_charger(&boot_mode(b"charge")));
    assert!(!is_charger(&boot_mode(b"chargers")));
    assert!(!is_charger(&boot_mode(b"")));
}

fn configured(argv1: Option<&str>, recovery: bool) -> StartAnswer {
    StartAnswer::Configured { argv1: argv1.map(String::from), recovery }
}

#[test]
fn file_systems_are_mounted_and_listed() {
    let mut m = MagiskInit::new();
    assert!(m.mount_list.is_empty() && m.preinit_dev.is_empty() && m.overlay_con.is_empty());
    let p = m.start(StartPhase::Proc, StartAnswer::Yes(false));
    assert!(p == StartPhase::MountProc);
    let p = m.start(p, StartAnswer::Yes(true));
    assert!(p == StartPhase::Sys);
    let p = m.start(p, StartAnswer::Yes(false));
    assert!(p == StartPhase::MountSys);
    let p = m.start(p, StartAnswer::Yes(true));
    assert!(p == StartPhase::Configure);
    assert_eq!(m.mount_list, vec!["/proc".to_string(), "/sys".to_string()]);
    let mut m = MagiskInit::new();
    assert!(m.start(StartPhase::Proc, StartAnswer::Yes(true)) == StartPhase::Sys);
    assert!(m.start(StartPhase::Sys, StartAnswer::Yes(true)) == StartPhase::Configure);
    assert!(m.start(StartPhase::MountProc, StartAnswer::Yes(false)) == StartPhase::Failed);
    assert!(m.start(StartPhase::MountSys, StartAnswer::Yes(false)) == StartPhase::Failed);
    assert!(m.mount_list.is_empty());
}

#[test]
fn boot_paths() {
    let mut m = MagiskInit::new();
    let run = |p| StartPhase::Run(p);
    let c = StartPhase::Configure;
    assert!(m.start(c, configured(None, false)) == StartPhase::TwoStage);
    assert!(m.start(c, configured(None, true)) == run(BootPath::RecoveryOrCharger));
    assert!(m.start(c, configured(Some("selinux_setup"), true)) == run(BootPath::SecondStage));
    assert!(m.start(c, configured(Some("other"), false)) == StartPhase::TwoStage);
    m.config.boot_mode = boot_mode(b"charger");
    assert!(m.start(c, configured(None, false)) == run(BootPath::RecoveryOrCharger));
    m.config.force_normal_boot = true;
    assert!(m.start(c, configured(None, true)) == run(BootPath::FirstStage));
    m.config.skip_initramfs = true;
    assert!(m.start(c, configured(None, true)) == run(BootPath::LegacySystemAsRoot));
    assert!(m.start(c, configured(Some("selinux_setup"), true)) == run(BootPath::SecondStage));
    let t = StartPhase::TwoStage;
    assert!(m.start(t, StartAnswer::Yes(true)) == run(BootPath::FirstStage));
    assert!(m.start(t, StartAnswer::Yes(false)) == run(BootPath::RootFs));
}

#[test]
fn what_is_done_on_a_path() {
    assert!(
        first_stage()
            == vec![
                InitStep::PrepareData,
                InitStep::RestoreInit,
                InitStep::RedirectInit { writable: true }
            ]
    );
    assert!(first_stage_fallback(false, false, false) == Some(InitStep::HijackInit));
    assert!(first_stage_fallback(false, false, true).is_none());
    assert!(first_stage_fallback(true, false, false).is_none());
    assert!(first_stage_fallback(false, true, false).is_none());
    assert!(second_stage(true).last() == Some(&InitStep::PatchWritableRoot));
    assert!(
        second_stage(false)
            == vec![InitStep::UncoverInit, InitStep::RenameSelf, InitStep::PatchReadOnlyRoot]
    );
    assert!(legacy_system_as_root(true) == InitStep::RedirectInit { writable: false });
    assert!(legacy_system_as_root(false) == InitStep::PatchReadOnlyRoot);
    assert!(rootfs().len() == 3);
    assert!(recovery_or_charger() == vec![InitStep::RestoreInit, InitStep::RemoveBackup]);
    assert!(restore_ramdisk_init(true) == InitSource::Backup);
    assert!(restore_ramdisk_init(false) == InitSource::System);
}

#[test]
fn roles() {
    assert!(role("magisk", 1) == Role::Proxy);
    assert!(role("init", 1) == Role::Init);
    assert!(role("init", 42) == Role::Nothing);
    assert_eq!(base_name("/sbin/magisk"), "magisk");
    assert_eq!(base_name("init"), "init");
    assert_eq!((base_name("/a/"), base_name("")), (String::new(), String::new()));
}
