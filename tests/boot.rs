use indexmap::IndexMap;
use microhop::analyser::SysAnalyser;
use microhop::blk::{BlkDev, BlkInfo};
use microhop::boot::{switch_root_steps, BootAction, BootEvent, BootSequencer, BootStage, RootStep};
use microhop::conf::MhConfig;
use microhop::kmod::{KModProbe, LoadReport};

fn table(v: Vec<(String, String)>) -> IndexMap<String, String> {
    v.into_iter().collect()
}

fn s(x: &str) -> String {
    x.to_string()
}

fn example_config() -> MhConfig {
    MhConfig::new(
        vec![s("ext4")],
        table(vec![(s("/dev/vda1"), s("ext4,/,rw"))]),
        Some(s("/sbin/init")),
        Some(s("/sysroot")),
        None,
    )
}

#[test]
fn boot_sequence_end_to_end() {
    let mut seq = BootSequencer::new(&example_config()).unwrap();
    let mut stages = vec![seq.stage()];
    let mut actions = Vec::new();
    loop {
        let action = seq.action();
        let event = match &action {
            BootAction::ProbeDevices => {
                let mut blk = BlkInfo::new();
                blk.add_device(BlkDev::new(s("/dev/vda1"), s("u-1"), s(""), s("ext4")));
                BootEvent::Probed(blk)
            }
            _ => BootEvent::Done,
        };
        let finished = matches!(action, BootAction::Finished);
        actions.push(action);
        if finished {
            break;
        }
        seq.advance(event);
        stages.push(seq.stage());
    }
    assert_eq!(
        stages,
        vec![
            BootStage::Start,
            BootStage::ModulesLoaded,
            BootStage::PseudoMounted,
            BootStage::DevicesProbed,
            BootStage::DisksResolved,
            BootStage::DisksMounted,
            BootStage::PseudoRehomed,
            BootStage::RootPurged,
            BootStage::RootSwitched,
            BootStage::InitExecuted,
        ]
    );
    match &actions[0] {
        BootAction::LoadModules(m) => assert_eq!(m, &vec![s("ext4")]),
        a => panic!("{:?}", a),
    }
    match &actions[1] {
        BootAction::MountPseudo(m) => assert_eq!(m[0].dst, "/proc"),
        a => panic!("{:?}", a),
    }
    match &actions[4] {
        BootAction::MountDisks(m) => {
            assert_eq!(m.len(), 1);
            assert_eq!((m[0].fstype.as_str(), m[0].dev.as_str(), m[0].dst.as_str()), ("ext4", "/dev/vda1", "/sysroot"));
        }
        a => panic!("{:?}", a),
    }
    match &actions[5] {
        BootAction::MovePseudo(m) => assert_eq!(m[2].dst, "/sysroot/dev"),
        a => panic!("{:?}", a),
    }
    match &actions[6] {
        BootAction::PurgeRoot(p) => assert_eq!(p, "/sysroot"),
        a => panic!("{:?}", a),
    }
    match &actions[7] {
        BootAction::SwitchRoot(p, f) => assert_eq!((p.as_str(), f.as_str()), ("/sysroot", "ext4")),
        a => panic!("{:?}", a),
    }
    match &actions[8] {
        BootAction::ExecInit(i) => assert_eq!(i, "/sbin/init"),
        a => panic!("{:?}", a),
    }
    assert!(matches!(actions[9], BootAction::Finished));
    seq.advance(BootEvent::Done);
    assert_eq!(seq.stage(), BootStage::InitExecuted);
}

#[test]
fn failed_probe_leaves_only_path_selectors() {
    let cfg = MhConfig::new(vec![], table(vec![(s("root"), s("ext4,/")), (s("/dev/vdb1"), s("xfs,/data"))]), None, None, None);
    let mut seq = BootSequencer::new(&cfg).unwrap();
    for _ in 0..3 {
        seq.advance(BootEvent::Done);
    }
    assert_eq!(seq.stage(), BootStage::DevicesProbed);
    assert!(matches!(seq.action(), BootAction::ResolveDisks));
    seq.advance(BootEvent::Done);
    match seq.action() {
        BootAction::MountDisks(m) => {
            assert_eq!(m.len(), 1);
            assert_eq!(m[0].dst, "/sysroot/data");
        }
        a => panic!("{:?}", a),
    }
}

#[test]
fn sequencer_refuses_bad_config() {
    let cfg = MhConfig::new(vec![], table(vec![(s("/dev/vda1"), s("ext4"))]), None, None, None);
    assert!(BootSequencer::new(&cfg).is_err());
}

#[test]
fn module_lookup_decisions() {
    let kmp = KModProbe::new("6.1.0");
    assert_eq!(kmp.get_root(), "/lib/modules/6.1.0");
    assert!(KModProbe::needs_search("ext4"));
    assert!(!KModProbe::needs_search("ext4.ko"));
    assert!(!KModProbe::needs_search("kernel/fs/ext4"));
    assert_eq!(kmp.module_file("kernel/fs/ext4/ext4.ko"), "/lib/modules/6.1.0/kernel/fs/ext4/ext4.ko");
    assert!(KModProbe::matches_module("ext4.ko.zst", "ext4"));
    assert!(!KModProbe::matches_module("xfs.ko", "ext4"));
    assert!(KModProbe::is_compressed("ext4.ko.zst"));
    assert!(!KModProbe::is_compressed("ext4.ko"));
}

#[test]
fn module_load_reports() {
    assert_eq!(KModProbe::feedback(false, false, false), LoadReport::NotFound);
    assert_eq!(KModProbe::feedback(true, true, false), LoadReport::Loaded);
    assert_eq!(KModProbe::feedback(true, false, true), LoadReport::AlreadyLoaded);
    assert_eq!(KModProbe::feedback(true, false, false), LoadReport::Failed);
}

#[test]
fn analyser_finds_root_device() {
    let a = SysAnalyser::new();
    let mounts = "proc /proc proc rw 0 0\n/dev/vda2 / ext4 rw,relatime 0 0\n/dev/vda1 /boot vfat rw 0 0\n";
    assert_eq!(a.get_root_device_path(mounts), Some(s("/dev/vda2")));
    assert_eq!(a.get_root_device_path("proc /proc proc rw 0 0\n"), None);
    let mut blk = BlkInfo::new();
    blk.add_device(BlkDev::new(s("/dev/vda1"), s("u-1"), s(""), s("vfat")));
    blk.add_device(BlkDev::new(s("/dev/vda2"), s("u-2"), s(""), s("ext4")));
    let root = a.get_root_disk("/dev/vda2", &blk).unwrap();
    assert_eq!(root.get_uuid(), "u-2");
    assert!(a.get_root_disk("/dev/vdb", &blk).is_none());
    let text = a.get_config(&vec![s("ext4"), s("virtio_blk")], &root);
    assert_eq!(
        text,
        "modules:\n  - ext4\n  - virtio_blk\n\ndisks:\n  u-2: ext4,/,rw\n\ninit: /sbin/init\nsysroot: /sysroot\nlog: debug\n"
    );
}

#[test]
fn compressed_module_images_are_unpacked() {
    let elf = b"\x7fELF module image".to_vec();
    let packed = zstd::stream::encode_all(elf.as_slice(), 3).unwrap();
    assert_eq!(KModProbe::module_image("ext4.ko.zst", packed.clone()), Some(elf.clone()));
    assert_eq!(KModProbe::module_image("ext4.ko", packed.clone()), Some(packed));
    assert_eq!(KModProbe::module_image("ext4.ko.zst", b"not zstd".to_vec()), None);
}

#[test]
fn root_switch_steps_in_order() {
    let steps = switch_root_steps("/sysroot", "ext4");
    assert_eq!(steps.len(), 3);
    assert!(matches!(&steps[0], RootStep::ChangeDir(d) if d == "/sysroot"));
    assert!(matches!(&steps[1], RootStep::MoveMount(s, t, f) if s == "/sysroot" && t == "/" && f == "ext4"));
    assert!(matches!(&steps[2], RootStep::ChangeRoot(d) if d == "."));
}
