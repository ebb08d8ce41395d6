use indexmap::IndexMap;
use std::io::Read;

use microhop::archive::{archive_bytes, entry_mode, pack, EntryKind, PackError, SourceEntry};
use microhop::image::{generate, get_module_name, module_order, ramfs_dirs, write_boot_config, BuildError, CONFIG_BANNER};
use microhop::conf::MhConfig;

fn table(v: Vec<(String, String)>) -> IndexMap<String, String> {
    v.into_iter().collect()
}

fn s(x: &str) -> String {
    x.to_string()
}

fn entry(name: &str, kind: EntryKind, mode: u32, payload: &[u8]) -> SourceEntry {
    SourceEntry { name: s(name), kind, gid: 100, mode, payload: payload.to_vec() }
}

fn tree() -> Vec<SourceEntry> {
    vec![
        entry(".", EntryKind::Directory, 0o755, b""),
        entry("./bin", EntryKind::Directory, 0o700, b""),
        entry("./bin/microhop", EntryKind::Regular, 0o755, b"\x7fELF binary"),
        entry("./etc.conf", EntryKind::Regular, 0o644, b"modules:\n  - ext4\n"),
        entry("./empty", EntryKind::Regular, 0o600, b""),
        entry("./init", EntryKind::Symlink, 0o777, b"bin/microhop"),
    ]
}

#[test]
fn archive_round_trip() {
    let entries = tree();
    let packed = pack(&entries).unwrap();
    let raw = zstd::stream::decode_all(packed.as_slice()).unwrap();
    assert_eq!(raw, archive_bytes(&entries).unwrap());
    let mut rest: &[u8] = raw.as_slice();
    let mut seen = Vec::new();
    loop {
        let mut reader = cpio::NewcReader::new(rest).unwrap();
        if reader.entry().is_trailer() {
            break;
        }
        let (name, ino, mode, uid, gid) = {
            let e = reader.entry();
            (e.name().to_string(), e.ino(), e.mode(), e.uid(), e.gid())
        };
        let mut data = Vec::new();
        reader.read_to_end(&mut data).unwrap();
        seen.push((name, ino, mode, uid, gid, data));
        rest = reader.finish().unwrap();
    }
    assert_eq!(seen.len(), 6);
    for (i, (e, got)) in entries.iter().zip(seen.iter()).enumerate() {
        assert_eq!(got.0, e.name);
        assert_eq!(got.1, (i + 1) as u32);
        assert_eq!(got.2 & 0o7777, e.mode);
        assert_eq!(got.3, 0);
        assert_eq!(got.4, 100);
        assert_eq!(got.5, e.payload);
    }
    assert_eq!(seen[0].2 & 0o170000, 0o040000);
    assert_eq!(seen[2].2 & 0o170000, 0o100000);
    assert_eq!(seen[5].2 & 0o170000, 0o120000);
}

#[test]
fn directory_payload_is_dropped() {
    let entries = vec![entry("./d", EntryKind::Directory, 0o755, b"ignored")];
    let raw = archive_bytes(&entries).unwrap();
    let mut reader = cpio::NewcReader::new(raw.as_slice()).unwrap();
    assert_eq!(reader.entry().file_size(), 0);
    let mut data = Vec::new();
    reader.read_to_end(&mut data).unwrap();
    assert!(data.is_empty());
}

#[test]
fn empty_archive_is_only_the_trailer() {
    let raw = archive_bytes(&vec![]).unwrap();
    let reader = cpio::NewcReader::new(raw.as_slice()).unwrap();
    assert!(reader.entry().is_trailer());
    assert!(pack(&vec![]).is_ok());
}

#[test]
fn mode_gets_file_type_bits() {
    assert_eq!(entry_mode(0o100644, EntryKind::Directory), 0o040644);
    assert_eq!(entry_mode(0o755, EntryKind::Regular), 0o100755);
    assert_eq!(entry_mode(0o777, EntryKind::Symlink), 0o120777);
    assert_ne!(PackError::EntryTooLarge, PackError::TooManyEntries);
}

fn dep_tree() -> Vec<(String, Vec<String>)> {
    vec![
        (s("kernel/fs/ext4/ext4.ko.zst"), vec![s("kernel/lib/crc16.ko.zst"), s("kernel/fs/jbd2/jbd2.ko.zst")]),
        (s("kernel/drivers/block/virtio_blk.ko"), vec![]),
    ]
}

#[test]
fn dependencies_come_before_requested_modules() {
    let order = module_order(&dep_tree());
    assert_eq!(
        order,
        vec![
            s("kernel/lib/crc16.ko.zst"),
            s("kernel/fs/jbd2/jbd2.ko.zst"),
            s("kernel/fs/ext4/ext4.ko.zst"),
            s("kernel/drivers/block/virtio_blk.ko"),
        ]
    );
}

#[test]
fn module_names_from_paths() {
    assert_eq!(get_module_name("kernel/fs/ext4/ext4.ko.zst"), "ext4");
    assert_eq!(get_module_name("virtio_blk.ko"), "virtio_blk");
    assert_eq!(get_module_name("plain"), "plain");
}

#[test]
fn image_directories() {
    let dirs = ramfs_dirs("/sysroot", "6.1.0");
    assert_eq!(dirs, vec![s("bin"), s("etc"), s("proc"), s("dev"), s("sys"), s("sysroot"), s("lib/modules/6.1.0")]);
}

fn config() -> MhConfig {
    MhConfig::new(
        vec![s("ext4")],
        table(vec![(s("/dev/vda1"), s("ext4,/"))]),
        Some(s("/sbin/init")),
        Some(s("/sysroot")),
        Some(s("debug")),
    )
}

#[test]
fn boot_config_text() {
    let order = module_order(&dep_tree());
    let text = write_boot_config(&order, &config()).unwrap();
    let expected = format!(
        "{}\n\nmodules:\n  - crc16\n  - jbd2\n  - ext4\n  - virtio_blk\n\ndisks:\n  /dev/vda1: ext4,/,rw\n\ninit: /sbin/init\nsysroot: /sysroot\nlog: debug\n",
        CONFIG_BANNER
    );
    assert_eq!(text, expected);
}

#[test]
fn existing_destination_is_refused() {
    match generate(true, "6.1.0", &dep_tree(), &config()) {
        Err(BuildError::AlreadyExists) => {}
        other => panic!("expected AlreadyExists, got {:?}", other.err()),
    }
}

#[test]
fn image_plan_for_new_destination() {
    let plan = generate(false, "6.1.0", &dep_tree(), &config()).unwrap();
    assert_eq!(plan.binary, "bin/microhop");
    assert_eq!(plan.init_link, (s("init"), s("bin/microhop")));
    assert_eq!(plan.copies.len(), 4);
    assert_eq!(plan.copies[0], (s("kernel/lib/crc16.ko.zst"), s("lib/modules/6.1.0/kernel/lib/crc16.ko.zst")));
    assert_eq!(plan.config.0, "etc/microhop.conf");
    assert!(plan.config.1.contains("  - crc16\n  - jbd2\n  - ext4\n  - virtio_blk\n"));
    assert_eq!(plan.dirs.len(), 7);
}

#[test]
fn image_plan_with_bad_config_fails() {
    let cfg = MhConfig::new(vec![], table(vec![(s("x"), s("bad"))]), None, None, None);
    assert!(matches!(generate(false, "6.1.0", &dep_tree(), &cfg), Err(BuildError::Config(_))));
}

#[test]
fn record_header_fields() {
    let entries = vec![entry("./bin/microhop", EntryKind::Regular, 0o755, b"abcde")];
    let raw = archive_bytes(&entries).unwrap();
    assert_eq!(&raw[0..6], b"070701");
    assert_eq!(&raw[6..14], b"00000001");
    assert_eq!(&raw[14..22], b"000081ed");
    assert_eq!(&raw[22..30], b"00000000");
    assert_eq!(&raw[30..38], b"00000064");
    assert_eq!(&raw[54..62], b"00000005");
    assert_eq!(&raw[94..102], b"0000000f");
    assert_eq!(&raw[110..124], b"./bin/microhop");
    assert_eq!(&raw[128..133], b"abcde");
    assert_eq!(&raw[133..136], &[0u8, 0, 0]);
    assert_eq!(&raw[136..142], b"070701");
}
