use indexmap::IndexMap;
use microhop::blk::{device_path, BlkDev, BlkInfo};
use microhop::conf::{MhConfDisk, MhConfig};
use microhop::mounts::{get_blk_devices, purge_candidate, rehome_mounts, resolve_device, sort_by_destination, sys_mounts, SystemDir};

fn table(v: Vec<(String, String)>) -> IndexMap<String, String> {
    v.into_iter().collect()
}

fn s(x: &str) -> String {
    x.to_string()
}

fn dev(path: &str, uuid: &str, label: &str, fstype: &str) -> BlkDev {
    BlkDev::new(s(path), s(uuid), s(label), s(fstype))
}

fn mount(fstype: &str, dev: &str, dst: &str) -> SystemDir {
    SystemDir { fstype: s(fstype), dev: s(dev), dst: s(dst) }
}

#[test]
fn partitions_exclude_the_raw_disk() {
    let stats = vec![s("vda"), s("vda1"), s("vda2")];
    let parts = BlkInfo::load_blk_device("vda", &stats);
    assert_eq!(parts, vec![s("vda1"), s("vda2")]);
    let mut blk = BlkInfo::new();
    for p in &parts {
        blk.add_device(dev(&device_path(p), "", "", ""));
    }
    let paths: Vec<String> = blk.get_devices().iter().map(|d| d.get_path().to_string()).collect();
    assert_eq!(paths, vec![s("/dev/vda1"), s("/dev/vda2")]);
}

#[test]
fn partitions_of_other_disks_are_skipped() {
    let stats = vec![s("sda"), s("sda1"), s("vda"), s("vda3"), s("loop0")];
    assert_eq!(BlkInfo::load_blk_device("sda", &stats), vec![s("sda1")]);
    assert_eq!(BlkInfo::load_blk_device("nvme0n1", &stats), Vec::<String>::new());
}

#[test]
fn disk_statistics_names_are_the_third_field() {
    let text = "   8       0 sda 120 0 4000 30\n   8       1 sda1 100 0 3000 20\n short line\n";
    assert_eq!(BlkInfo::load_dev_stats(text), vec![s("sda"), s("sda1")]);
    assert_eq!(BlkInfo::load_dev_stats(""), Vec::<String>::new());
}

#[test]
fn device_path_prefixes_dev() {
    assert_eq!(device_path("vda1"), "/dev/vda1");
}

#[test]
fn lookups_return_the_first_match() {
    let mut blk = BlkInfo::new();
    blk.add_device(dev("/dev/vda1", "u-1", "boot", "vfat"));
    blk.add_device(dev("/dev/vda2", "u-2", "root", "ext4"));
    blk.add_device(dev("/dev/vda3", "u-3", "root", "xfs"));
    assert_eq!(blk.by_uuid("u-2").unwrap().get_path(), "/dev/vda2");
    assert_eq!(blk.by_label("root").unwrap().get_path(), "/dev/vda2");
    assert_eq!(blk.by_path("/dev/vda3").unwrap().get_fstype(), "xfs");
    assert!(blk.by_uuid("u-9").is_none());
    assert!(blk.by_label("home").is_none());
    assert!(blk.by_path("/dev/vdb1").is_none());
}

#[test]
fn mount_criterion_falls_back() {
    assert_eq!(dev("/dev/vda1", "u-1", "root", "ext4").get_mount_criterion(), "u-1");
    assert_eq!(dev("/dev/vda1", "", "root", "ext4").get_mount_criterion(), "/dev/vda1");
    assert_eq!(dev("", "", "root", "ext4").get_mount_criterion(), "root");
    assert_eq!(dev("", "", "", "").get_mount_criterion(), "/dev/null");
    let d = dev("/dev/vda1", "u-1", "root", "ext4");
    assert_eq!(d.get_uuid(), "u-1");
    assert_eq!(d.get_label(), "root");
}

#[test]
fn uuid_selector_wins_over_equal_label() {
    let id = "0b8e5a7e-6c1d-4f2a-9d3e-1a2b3c4d5e6f";
    let mut blk = BlkInfo::new();
    blk.add_device(dev("/dev/vda1", "", id, "ext4"));
    blk.add_device(dev("/dev/vda2", id, "data", "ext4"));
    assert_eq!(resolve_device(id, true, &blk), Some(s("/dev/vda2")));
    assert_eq!(resolve_device(id, false, &blk), Some(s("/dev/vda1")));
}

#[test]
fn selector_kinds_resolve() {
    let mut blk = BlkInfo::new();
    blk.add_device(dev("/dev/vda1", "u-1", "root", "ext4"));
    assert_eq!(resolve_device("/dev/sdz9", false, &blk), Some(s("/dev/sdz9")));
    assert_eq!(resolve_device("root", false, &blk), Some(s("/dev/vda1")));
    assert_eq!(resolve_device("nothing", false, &blk), None);
    assert_eq!(resolve_device("u-1", true, &blk), Some(s("/dev/vda1")));
}

#[test]
fn sysroot_mounts_before_nested_mountpoint() {
    let sorted = sort_by_destination(vec![mount("ext4", "/dev/vda2", "/sysroot/data"), mount("ext4", "/dev/vda1", "/sysroot")]);
    let dsts: Vec<&str> = sorted.iter().map(|m| m.dst.as_str()).collect();
    assert_eq!(dsts, vec!["/sysroot", "/sysroot/data"]);
}

#[test]
fn sort_keeps_every_mount() {
    let sorted = sort_by_destination(vec![
        mount("a", "1", "/sysroot/var/log"),
        mount("b", "2", "/sysroot"),
        mount("c", "3", "/sysroot/home"),
        mount("d", "4", "/sysroot/var"),
    ]);
    let dsts: Vec<&str> = sorted.iter().map(|m| m.dst.as_str()).collect();
    assert_eq!(dsts, vec!["/sysroot", "/sysroot/home", "/sysroot/var", "/sysroot/var/log"]);
    assert!(sort_by_destination(vec![]).is_empty());
}

#[test]
fn blk_devices_plan_from_config() {
    let id = "0b8e5a7e-6c1d-4f2a-9d3e-1a2b3c4d5e6f";
    let mut blk = BlkInfo::new();
    blk.add_device(dev("/dev/vda1", "", "boot", "vfat"));
    blk.add_device(dev("/dev/vda2", id, "", "ext4"));
    let cfg = MhConfig::new(
        vec![],
        table(vec![(s("boot"), s("vfat,/boot/,ro")), (s(id), s("ext4,/")), (s("missing"), s("xfs,/srv"))]),
        None,
        None,
        None,
    );
    let (root_fstype, plan) = get_blk_devices(&cfg, &blk).unwrap();
    assert_eq!(root_fstype, "ext4");
    assert_eq!(plan.len(), 2);
    assert_eq!((plan[0].fstype.as_str(), plan[0].dev.as_str(), plan[0].dst.as_str()), ("ext4", "/dev/vda2", "/sysroot"));
    assert_eq!((plan[1].fstype.as_str(), plan[1].dev.as_str(), plan[1].dst.as_str()), ("vfat", "/dev/vda1", "/sysroot/boot"));
}

#[test]
fn blk_devices_without_root_disk_has_empty_fstype() {
    let blk = BlkInfo::new();
    let cfg = MhConfig::new(vec![], table(vec![(s("/dev/vdb1"), s("xfs,/srv"))]), None, Some(s("/new")), None);
    let (root_fstype, plan) = get_blk_devices(&cfg, &blk).unwrap();
    assert_eq!(root_fstype, "");
    assert_eq!(plan.len(), 1);
    assert_eq!(plan[0].dst, "/new/srv");
}

#[test]
fn blk_devices_reject_bad_disk_options() {
    let blk = BlkInfo::new();
    let cfg = MhConfig::new(vec![], table(vec![(s("/dev/vda1"), s("ext4"))]), None, None, None);
    assert!(get_blk_devices(&cfg, &blk).is_err());
}

#[test]
fn pseudo_filesystems_in_order() {
    let m = sys_mounts();
    let got: Vec<(&str, &str, &str)> = m.iter().map(|x| (x.fstype.as_str(), x.dev.as_str(), x.dst.as_str())).collect();
    assert_eq!(got, vec![("proc", "none", "/proc"), ("sysfs", "none", "/sys"), ("devtmpfs", "devtmpfs", "/dev")]);
    let r = rehome_mounts("/sysroot");
    let got: Vec<(&str, &str)> = r.iter().map(|x| (x.dev.as_str(), x.dst.as_str())).collect();
    assert_eq!(got, vec![("/proc", "/sysroot/proc"), ("/sys", "/sysroot/sys"), ("/dev", "/sysroot/dev")]);
}

#[test]
fn purge_spares_guarded_trees() {
    for p in ["/sysroot", "/sysroot/data", "/proc", "/proc/1", "/sys/block", "/dev", "/dev/pts", "/sysroot/proc/x"] {
        assert!(!purge_candidate(p, 0, true, "/sysroot"), "{}", p);
    }
    assert!(!purge_candidate("/", 0, true, "/sysroot"));
    assert!(purge_candidate("/lib", 0, true, "/sysroot"));
    assert!(purge_candidate("/system", 0, true, "/sysroot"));
    assert!(purge_candidate("/devices", 0, true, "/sysroot"));
    assert!(!purge_candidate("/lib", 7, true, "/sysroot"));
    assert!(!purge_candidate("/lib", 0, false, "/sysroot"));
}

#[test]
fn disk_description_getters() {
    let d = MhConfDisk::new(s("/dev/vda1"), s("ext4"), s("/"), s("rw"));
    assert_eq!(d.get_device(), "/dev/vda1");
    assert_eq!(d.get_fstype(), "ext4");
    assert_eq!(d.get_mountpoint(), "/");
    assert_eq!(d.as_pathbuf(), "/");
    assert_eq!(d.get_mode(), "rw");
}

#[test]
fn root_type_comes_from_first_root_disk_even_when_empty() {
    let blk = BlkInfo::new();
    let cfg = MhConfig::new(
        vec![],
        table(vec![(s("/dev/vda1"), s(",/")), (s("/dev/vda2"), s("ext4,/"))]),
        None,
        None,
        None,
    );
    let (root_fstype, plan) = get_blk_devices(&cfg, &blk).unwrap();
    assert_eq!(root_fstype, "");
    assert_eq!(plan.len(), 2);
}

#[test]
fn purge_spares_directories_holding_the_sysroot() {
    assert!(!purge_candidate("/mnt", 0, true, "/mnt/sysroot"));
    assert!(!purge_candidate("/mnt/sysroot/home", 0, true, "/mnt/sysroot"));
    assert!(purge_candidate("/mnt/other", 0, true, "/mnt/sysroot"));
    assert!(purge_candidate("/mn", 0, true, "/mnt/sysroot"));
}

#[test]
fn disk_statistics_split_on_any_whitespace() {
    let text = "8\t0\tsda 1 2\n 8 \t 1   sda1\r\n";
    assert_eq!(BlkInfo::load_dev_stats(text), vec![s("sda"), s("sda1")]);
}

#[test]
fn uuid_forms_are_looked_up_by_uuid() {
    let forms = [
        "0b8e5a7e6c1d4f2a9d3e1a2b3c4d5e6f",
        "{0b8e5a7e-6c1d-4f2a-9d3e-1a2b3c4d5e6f}",
        "URN:uuid:0B8E5A7E-6c1d-4f2a-9d3e-1a2b3c4d5e6f",
    ];
    for sel in forms {
        let mut blk = BlkInfo::new();
        blk.add_device(dev("/dev/vda1", "", sel, "ext4"));
        let cfg = MhConfig::new(vec![], table(vec![(s(sel), s("ext4,/"))]), None, None, None);
        let (_, plan) = get_blk_devices(&cfg, &blk).unwrap();
        assert!(plan.is_empty(), "{}", sel);
    }
    let mut blk = BlkInfo::new();
    blk.add_device(dev("/dev/vda1", "", "0b8e5a7e-6c1d-4f2a-9d3e", "ext4"));
    let cfg = MhConfig::new(vec![], table(vec![(s("0b8e5a7e-6c1d-4f2a-9d3e"), s("ext4,/"))]), None, None, None);
    let (_, plan) = get_blk_devices(&cfg, &blk).unwrap();
    assert_eq!(plan.len(), 1);
}
