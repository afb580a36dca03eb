use kitsune::mount::{
    encrypt_type, file_name, find_preinit_device, find_preinit_device_sysfs, is_block_device,
    device_major, mirror_plan, next_target, partname, preinit_candidate, preinit_name,
    setup_preinit_dir, BlockEntry, EncryptType, MountInfo, PartId, S_IFBLK, S_IFMT,
};

fn info(target: &str, source: &str, fs_type: &str) -> MountInfo {
    MountInfo {
        device: libc::makedev(8, 1) as u64,
        root: "/".to_string(),
        target: target.to_string(),
        fs_type: fs_type.to_string(),
        source: source.to_string(),
        fs_option: "rw,seclabel".to_string(),
    }
}

fn by_name(target: &str, fs_type: &str) -> MountInfo {
    info(target, &format!("/dev/block/by-name{}", target), fs_type)
}

fn order(a: (u8, bool), b: (u8, bool)) -> std::cmp::Ordering {
    let metadata = 3;
    if (a.0 == metadata && b.1) || (b.0 == metadata && a.1) {
        a.0.cmp(&b.0)
    } else if a.1 && !b.1 {
        std::cmp::Ordering::Less
    } else if !a.1 && b.1 {
        std::cmp::Ordering::Greater
    } else {
        a.0.cmp(&b.0)
    }
}

#[test]
fn encryption_is_told_by_properties() {
    assert!(encrypt_type("", "block", "true") == EncryptType::Unencrypted);
    assert!(encrypt_type("unencrypted", "block", "true") == EncryptType::Unencrypted);
    assert!(encrypt_type("encrypted", "block", "true") == EncryptType::Block);
    assert!(encrypt_type("encrypted", "file", "true") == EncryptType::Metadata);
    assert!(encrypt_type("encrypted", "file", "false") == EncryptType::File);
}

#[test]
fn block_devices_are_recognised() {
    assert_eq!(S_IFMT, libc::S_IFMT as u32);
    assert_eq!(S_IFBLK, libc::S_IFBLK as u32);
    assert!(is_block_device(libc::S_IFBLK as u32 | 0o600));
    assert!(!is_block_device(libc::S_IFREG as u32 | 0o600));
    assert!(!is_block_device(libc::S_IFCHR as u32));
}

#[test]
fn candidates_by_mount_point() {
    let none = EncryptType::Unencrypted;
    assert!(preinit_candidate(&by_name("/data", "ext4"), none) == Some(PartId::Data));
    assert!(preinit_candidate(&by_name("/data", "f2fs"), EncryptType::File) == Some(PartId::Data));
    assert!(preinit_candidate(&by_name("/data", "ext4"), EncryptType::Block).is_none());
    assert!(preinit_candidate(&by_name("/data", "ext4"), EncryptType::Metadata).is_none());
    assert!(preinit_candidate(&by_name("/cache", "ext4"), none) == Some(PartId::Cache));
    assert!(preinit_candidate(&by_name("/klogdump", "ext4"), none) == Some(PartId::Klogdump));
    assert!(preinit_candidate(&by_name("/metadata", "ext4"), none) == Some(PartId::Metadata));
    assert!(preinit_candidate(&by_name("/persist", "ext4"), none) == Some(PartId::Persist));
    let vendor = info("/mnt/vendor/persist", "/dev/block/by-name/persist", "ext4");
    assert!(preinit_candidate(&vendor, none) == Some(PartId::Persist));
    assert!(preinit_candidate(&by_name("/system", "ext4"), none).is_none());
}

#[test]
fn unusable_mounts_are_passed_over() {
    let none = EncryptType::Unencrypted;
    let good = || by_name("/cache", "ext4");
    assert!(preinit_candidate(&good(), none).is_some());
    let mut m = good();
    m.root = "/sub".to_string();
    assert!(preinit_candidate(&m, none).is_none());
    let mut m = good();
    m.source = "tmpfs".to_string();
    assert!(preinit_candidate(&m, none).is_none());
    let mut m = good();
    m.source = "/dev/block/dm-3".to_string();
    assert!(preinit_candidate(&m, none).is_none());
    let mut m = good();
    m.fs_type = "erofs".to_string();
    assert!(preinit_candidate(&m, none).is_none());
    let mut m = good();
    m.fs_option = "ro,rwx".to_string();
    assert!(preinit_candidate(&m, none).is_none());
    for (source, usable) in [
        ("/dev/block/sda1", true),
        ("/dev/block/./sda1", true),
        ("/dev/block//sda1/", true),
        ("/dev/block/platform/sda1", false),
        ("/block/..", true),
        ("/sda1", false),
        ("/", false),
    ] {
        let mut m = good();
        m.source = source.to_string();
        assert_eq!(preinit_candidate(&m, none).is_some(), usable, "{}", source);
        let path = std::path::Path::new(source).parent();
        assert_eq!(
            path.map_or(false, |p| p.ends_with("by-name") || p.ends_with("block")),
            usable,
            "{}",
            source
        );
    }
}

#[test]
fn dynamic_major_numbers_are_passed_over() {
    let none = EncryptType::Unencrypted;
    for (major, usable) in [(239, true), (240, false), (254, false), (255, true), (0x1f0, true)] {
        let mut m = info("/cache", "/dev/block/sda1", "ext4");
        m.device = libc::makedev(major, 3) as u64;
        assert_eq!(preinit_candidate(&m, none).is_some(), usable, "{}", major);
        m.source = "/dev/block/vda1".to_string();
        assert!(preinit_candidate(&m, none).is_some());
        m.source = "/dev/block/by-name/cache".to_string();
        assert!(preinit_candidate(&m, none).is_some());
    }
}

#[test]
fn the_best_candidate_is_chosen() {
    let none = EncryptType::Unencrypted;
    let v = vec![by_name("/persist", "ext4"), by_name("/cache", "f2fs"), by_name("/data", "ext4")];
    assert_eq!(find_preinit_device(&v, none), Some(2));
    assert_eq!(find_preinit_device(&v, EncryptType::Block), Some(0));
    let v = vec![by_name("/data", "f2fs"), by_name("/persist", "ext4")];
    assert_eq!(find_preinit_device(&v, none), Some(1));
    let v = vec![by_name("/metadata", "f2fs"), by_name("/persist", "ext4")];
    assert_eq!(find_preinit_device(&v, none), Some(0));
    let v = vec![by_name("/system", "ext4")];
    assert_eq!(find_preinit_device(&v, none), None);
    assert_eq!(find_preinit_device(&[], none), None);
}

#[test]
fn choosing_agrees_with_selection() {
    let targets = ["/data", "/cache", "/klogdump", "/metadata", "/persist"];
    let mut seed: u64 = 7;
    for _ in 0..400 {
        let mut v = Vec::new();
        let mut keys: Vec<(u8, bool, usize)> = Vec::new();
        seed = seed.wrapping_mul(6364136223846793005).wrapping_add(1442695040888963407);
        let n = 1 + (seed >> 33) as usize % 4;
        for i in 0..n {
            seed = seed.wrapping_mul(6364136223846793005).wrapping_add(1442695040888963407);
            let t = (seed >> 33) as usize % 5;
            let ext4 = (seed >> 40) & 1 == 0;
            v.push(by_name(targets[t], if ext4 { "ext4" } else { "f2fs" }));
            keys.push((t as u8, ext4, i));
        }
        let (_, min, _) =
            keys.select_nth_unstable_by(0, |a, b| order((a.0, a.1), (b.0, b.1)));
        let got = find_preinit_device(&v, EncryptType::Unencrypted).unwrap();
        let ext4 = v[got].fs_type == "ext4";
        assert_eq!(targets[min.0 as usize], v[got].target);
        assert_eq!(min.1, ext4);
    }
}

#[test]
fn partitions_are_named_by_their_path() {
    for path in ["/dev/block/by-name/userdata", "/a/b/", "/a/..", "/", "/a/.", "//x//y"] {
        let expected = std::path::Path::new(path)
            .file_name()
            .and_then(|n| n.to_str())
            .unwrap_or_default();
        assert_eq!(file_name(path), expected, "{}", path);
    }
}

#[test]
fn writable_mounts_of_a_device() {
    let mut v = vec![by_name("/a", "ext4"), by_name("/b", "ext4"), by_name("/c", "ext4")];
    v[0].fs_option = "ro".to_string();
    v[2].root = "/x".to_string();
    let dev = v[0].device;
    assert_eq!(setup_preinit_dir(&v, dev), vec!["/b".to_string()]);
    assert!(setup_preinit_dir(&v, dev + 1).is_empty());
    assert_eq!((next_target(2, 0, false), next_target(2, 1, false)), (Some(0), Some(1)));
    assert_eq!((next_target(2, 1, true), next_target(2, 2, false)), (None, None));
    assert_eq!(next_target(0, 0, false), None);
}

#[test]
fn links_are_made_by_root_only() {
    let p = mirror_plan(0, Some("/tmp"), true);
    assert!(p.link && p.node);
    let p = mirror_plan(0, Some("/tmp"), false);
    assert!(p.link && !p.node);
    assert!(!mirror_plan(2000, Some("/tmp"), true).link);
    assert!(!mirror_plan(0, Some(""), true).link);
    assert!(!mirror_plan(0, None, true).node);
}

fn block(uevent: Option<&str>, dm: Option<&str>) -> BlockEntry {
    BlockEntry { uevent: uevent.map(String::from), dm_name: dm.map(String::from) }
}

#[test]
fn block_devices_are_named() {
    assert_eq!(partname(&block(Some("MAJOR=8\nPARTNAME=cache\nPARTNAME=x"), Some("dm"))), "cache");
    assert_eq!(partname(&block(Some("MAJOR=8\n"), Some(" userdata\n"))), "userdata");
    assert_eq!(partname(&block(Some("PARTNAME=\n"), Some("dm"))), "dm");
    assert_eq!(partname(&block(None, None)), "");
}

#[test]
fn partitions_are_chosen_by_name() {
    let v = vec![
        block(Some("PARTNAME=boot"), None),
        block(Some("PARTNAME=Cache"), None),
        block(None, Some("DATA\n")),
        block(Some("PARTNAME=data"), None),
    ];
    assert_eq!(find_preinit_device_sysfs(&v), "DATA");
    assert_eq!(find_preinit_device_sysfs(&v[..2]), "Cache");
    assert_eq!(find_preinit_device_sysfs(&v[..1]), "");
    let v = [
        block(Some("PARTNAME=persist"), None),
        block(Some("PARTNAME=cache"), None),
        block(Some("PARTNAME=metadata"), None),
        block(Some("PARTNAME=METADATA"), None),
    ];
    assert_eq!(find_preinit_device_sysfs(&v), "metadata");
    assert_eq!(find_preinit_device_sysfs(&v[..2]), "cache");
    assert_eq!(find_preinit_device_sysfs(&v[..1]), "persist");
    let mounts = [by_name("/cache", "ext4")];
    assert_eq!(preinit_name(&mounts, EncryptType::Unencrypted, &v), "cache");
    assert_eq!(preinit_name(&[], EncryptType::Unencrypted, &v), "metadata");
    assert_eq!(find_preinit_device_sysfs(&[]), "");
}

#[test]
fn major_numbers() {
    for (major, minor) in [(0, 0), (8, 1), (253, 17), (254, 0xfff), (0xfff, 0xff)] {
        let dev = libc::makedev(major, minor) as u64;
        assert_eq!(device_major(dev), major);
    }
    assert_eq!(device_major(u64::MAX), 0xfff);
    assert_eq!(device_major(0xffff_f000_0000_0801), 8);
}
