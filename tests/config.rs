use indexmap::IndexMap;
use microhop::conf::{get_disk_opts, ConfError, LogLevel, MhConfig};
use microhop::text::{split_char, starts_with, str_eq, trim_trailing_slashes};

fn table(v: Vec<(String, String)>) -> IndexMap<String, String> {
    v.into_iter().collect()
}

fn s(x: &str) -> String {
    x.to_string()
}

fn cfg_with(disks: Vec<(String, String)>, init: Option<String>, sysroot: Option<String>, log: Option<String>) -> MhConfig {
    MhConfig::new(vec![s("ext4"), s("virtio_blk")], table(disks), init, sysroot, log)
}

#[test]
fn disk_options_with_two_fields_default_to_rw() {
    let (f, m, mode) = get_disk_opts("ext4,/").unwrap();
    assert_eq!((f.as_str(), m.as_str(), mode.as_str()), ("ext4", "/", "rw"));
}

#[test]
fn disk_options_with_three_fields() {
    let (f, m, mode) = get_disk_opts("xfs,/data,ro").unwrap();
    assert_eq!((f.as_str(), m.as_str(), mode.as_str()), ("xfs", "/data", "ro"));
}

#[test]
fn disk_options_with_wrong_field_count_fail() {
    for bad in ["ext4", "", "a,b,c,d"] {
        match get_disk_opts(bad) {
            Err(ConfError::InvalidDiskOptions(o)) => assert_eq!(o, bad),
            Ok(_) => panic!("accepted {}", bad),
        }
    }
}

#[test]
fn disks_keep_configuration_order() {
    let cfg = cfg_with(vec![(s("/dev/vda1"), s("ext4,/,rw")), (s("data"), s("xfs,/srv"))], None, None, None);
    let disks = cfg.get_disks().unwrap();
    assert_eq!(disks.len(), 2);
    assert_eq!(disks[0].get_device(), "/dev/vda1");
    assert_eq!(disks[1].get_device(), "data");
    assert_eq!(disks[1].get_mode(), "rw");
    assert_eq!(disks[1].get_mountpoint(), "/srv");
}

#[test]
fn disks_with_a_malformed_entry_fail() {
    let cfg = cfg_with(vec![(s("/dev/vda1"), s("ext4,/")), (s("x"), s("bad"))], None, None, None);
    match cfg.get_disks() {
        Err(ConfError::InvalidDiskOptions(o)) => assert_eq!(o, "bad"),
        Ok(_) => panic!("malformed disk accepted"),
    }
}

#[test]
fn defaults_and_log_levels() {
    let cfg = cfg_with(vec![], None, None, None);
    assert_eq!(cfg.get_init_path(), "/sysroot");
    assert_eq!(cfg.get_sysroot_path(), "/sysroot");
    assert_eq!(cfg.get_log_level(), LogLevel::Info);
    assert_eq!(cfg.get_log_level_as_str(), None);
    assert_eq!(cfg.get_modules(), &vec![s("ext4"), s("virtio_blk")]);
    let cfg = cfg_with(vec![], Some(s("/sbin/init")), Some(s("/mnt/root")), Some(s("debug")));
    assert_eq!(cfg.get_init_path(), "/sbin/init");
    assert_eq!(cfg.get_sysroot_path(), "/mnt/root");
    assert_eq!(cfg.get_log_level(), LogLevel::Debug);
    assert_eq!(cfg_with(vec![], None, None, Some(s("quiet"))).get_log_level(), LogLevel::Off);
    assert_eq!(cfg_with(vec![], None, None, Some(s("loud"))).get_log_level(), LogLevel::Info);
}

#[test]
fn text_helpers() {
    assert_eq!(split_char("a,,b", ','), vec![s("a"), s(""), s("b")]);
    assert_eq!(split_char("", ','), vec![s("")]);
    assert_eq!(trim_trailing_slashes("/data//"), "/data");
    assert_eq!(trim_trailing_slashes("/"), "");
    assert!(starts_with("/dev/vda", "/dev"));
    assert!(!starts_with("/de", "/dev"));
    assert!(str_eq("abc", "abc"));
    assert!(!str_eq("abc", "abd"));
}

#[test]
fn configuration_parts_round_trip() {
    let cfg = cfg_with(vec![(s("/dev/vda1"), s("ext4,/"))], Some(s("/sbin/init")), None, Some(s("debug")));
    let (modules, disks, init, sysroot, log) = cfg.into_parts();
    assert_eq!(modules, vec![s("ext4"), s("virtio_blk")]);
    assert_eq!(disks.get("/dev/vda1"), Some(&s("ext4,/")));
    assert_eq!(init, Some(s("/sbin/init")));
    assert_eq!(sysroot, None);
    assert_eq!(log, Some(s("debug")));
}
