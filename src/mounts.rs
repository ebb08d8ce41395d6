//! Mount planning for the boot sequencer: the pseudo-filesystems, the
//! resolution of configured disks against the probed device table, the
//! order in which they are mounted, and what the root purge must spare.
use vstd::prelude::*;
use vstd::seq_lib::{to_multiset_insert, to_multiset_build};
use crate::blk::{BlkDevView, BlkInfo, first_dev, has_uuid, has_label, is_first, lemma_first_unique};
use crate::conf::{ConfError, DiskView, MhConfDisk, MhConfig, disk_views, disks_valid, disk_of, sysroot_path};
use crate::order::{lex_le, lemma_lex_total, lemma_lex_trans, lemma_extension_sorts_after, path_le};
use crate::text::{is_prefix, trim_end_slashes, str_eq, starts_with, join2, trim_trailing_slashes};

verus! {

/// One mount: a filesystem type, a source and a destination.
pub struct MountView {
    pub fstype: Seq<char>,
    pub source: Seq<char>,
    pub dest: Seq<char>,
}

/// A filesystem to mount: its type, its source device and its destination.
#[derive(Clone, Debug)]
pub struct SystemDir {
    pub fstype: String,
    pub dev: String,
    pub dst: String,
}

impl View for SystemDir {
    type V = MountView;

    open spec fn view(&self) -> MountView {
        MountView { fstype: self.fstype@, source: self.dev@, dest: self.dst@ }
    }
}

impl SystemDir {
    pub fn new(fstype: String, dev: String, dst: String) -> (r: SystemDir)
        ensures
            r@ == (MountView { fstype: fstype@, source: dev@, dest: dst@ }),
    {
        SystemDir { fstype, dev, dst }
    }
}

pub open spec fn mount_views(s: Seq<SystemDir>) -> Seq<MountView> {
    s.map_values(|d: SystemDir| d@)
}

/// Destinations never decrease along the sequence.
pub open spec fn sorted_by_dest(s: Seq<MountView>) -> bool {
    forall|i: int, j: int| 0 <= i < j < s.len() ==> lex_le(#[trigger] s[i].dest, #[trigger] s[j].dest)
}

/// The pseudo-filesystems, in the order they are mounted: `proc` first,
/// since device probing reads the kernel's statistics under it.
pub open spec fn pseudo_mounts() -> Seq<MountView> {
    seq![
        MountView { fstype: "proc"@, source: "none"@, dest: "/proc"@ },
        MountView { fstype: "sysfs"@, source: "none"@, dest: "/sys"@ },
        MountView { fstype: "devtmpfs"@, source: "devtmpfs"@, dest: "/dev"@ },
    ]
}

/// Each pseudo-filesystem moved from its place to the same place under the sysroot.
pub open spec fn rehomed(sysroot: Seq<char>) -> Seq<MountView> {
    pseudo_mounts().map_values(
        |m: MountView| MountView { fstype: m.fstype, source: m.dest, dest: sysroot + m.dest },
    )
}

/// An ASCII hex digit, of either case.
pub open spec fn is_hex(c: char) -> bool {
    ('0' <= c && c <= '9') || ('a' <= c && c <= 'f') || ('A' <= c && c <= 'F')
}

/// The hyphenated form: 36 characters, hyphens at 8, 13, 18 and 23, hex
/// digits elsewhere.
pub open spec fn uuid_hyphenated(s: Seq<char>) -> bool {
    s.len() == 36 && forall|i: int|
        0 <= i < 36 ==> if i == 8 || i == 13 || i == 18 || i == 23 {
            #[trigger] s[i] == '-'
        } else {
            is_hex(s[i])
        }
}

/// ASCII lower case of a character.
pub open spec fn ascii_lower(c: char) -> char {
    if 'A' <= c && c <= 'Z' {
        ((c as u32) + 32) as char
    } else {
        c
    }
}

/// The forms of UUID text accepted: 32 hex digits, the hyphenated form,
/// the hyphenated form in braces, or it after a `urn:uuid:` prefix in
/// any case.
pub open spec fn uuid_syntax(s: Seq<char>) -> bool {
    (s.len() == 32 && forall|i: int| 0 <= i < 32 ==> is_hex(#[trigger] s[i])) || uuid_hyphenated(s) || (s.len() == 38
        && s[0] == '{' && s[37] == '}' && uuid_hyphenated(s.subrange(1, 37))) || (s.len() == 45 && s.subrange(
        0,
        9,
    ).map_values(|c: char| ascii_lower(c)) == "urn:uuid:"@ && uuid_hyphenated(s.subrange(9, 45)))
}

/// Relies on `uuid::Uuid::parse_str`: whether the text parses as a UUID;
/// the crate accepts exactly the four forms of `uuid_syntax`.
#[verifier::external_body]
fn is_uuid(s: &str) -> (r: bool)
    ensures
        r == uuid_syntax(s@),
{
    uuid::Uuid::parse_str(s).is_ok()
}

/// The path of a device found by a lookup, or the empty path.
pub open spec fn found_path(d: Option<BlkDevView>) -> Seq<char> {
    match d {
        Some(v) => v.path,
        None => Seq::empty(),
    }
}

/// The device node that a disk selector names: a UUID is looked up by
/// UUID, a `/dev` path is taken as it stands, anything else is looked up by
/// label. An empty result means unresolved.
pub open spec fn resolve_spec(sel: Seq<char>, sel_is_uuid: bool, devs: Seq<BlkDevView>) -> Option<Seq<char>> {
    let p = if sel_is_uuid {
        found_path(first_dev(devs, has_uuid(sel)))
    } else if is_prefix("/dev"@, sel) {
        sel
    } else {
        found_path(first_dev(devs, has_label(sel)))
    };
    if p.len() > 0 {
        Some(p)
    } else {
        None
    }
}

/// The mounts for the configured disks, in configuration order; a disk
/// whose selector does not resolve has none.
pub open spec fn plan_spec(
    disks: Seq<DiskView>,
    flags: Seq<bool>,
    sysroot: Seq<char>,
    devs: Seq<BlkDevView>,
) -> Seq<MountView>
    decreases disks.len(),
{
    if disks.len() == 0 || flags.len() != disks.len() {
        Seq::empty()
    } else {
        let rest = plan_spec(disks.drop_last(), flags.drop_last(), sysroot, devs);
        let d = disks.last();
        match resolve_spec(d.device, flags.last(), devs) {
            Some(p) => rest.push(
                MountView { fstype: d.fstype, source: p, dest: sysroot + trim_end_slashes(d.mountpoint) },
            ),
            None => rest,
        }
    }
}

/// The disk is mounted at the root: its mountpoint is empty once
/// trailing slashes are trimmed.
pub open spec fn is_root_disk(d: DiskView) -> bool {
    trim_end_slashes(d.mountpoint).len() == 0
}

/// Some disk of the sequence is mounted at the root.
pub open spec fn has_root_disk(disks: Seq<DiskView>) -> bool
    decreases disks.len(),
{
    disks.len() > 0 && (has_root_disk(disks.drop_last()) || is_root_disk(disks.last()))
}

/// The filesystem type of the first disk mounted at the root, even when
/// that type is empty; empty if no disk is mounted at the root.
pub open spec fn root_fstype_spec(disks: Seq<DiskView>) -> Seq<char>
    decreases disks.len(),
{
    if disks.len() == 0 {
        Seq::empty()
    } else if has_root_disk(disks.drop_last()) {
        root_fstype_spec(disks.drop_last())
    } else if is_root_disk(disks.last()) {
        disks.last().fstype
    } else {
        Seq::empty()
    }
}

/// Whether each configured selector has UUID syntax.
pub open spec fn uuid_flags(disks: Seq<DiskView>) -> Seq<bool> {
    disks.map_values(|d: DiskView| uuid_syntax(d.device))
}

/// `p` is `d` or lies beneath it.
pub open spec fn is_under(p: Seq<char>, d: Seq<char>) -> bool {
    p == d || is_prefix(d + "/"@, p)
}

/// The trees that the root purge leaves alone.
pub open spec fn guarded(sysroot: Seq<char>) -> Seq<Seq<char>> {
    seq!["/proc"@, "/sys"@, "/dev"@, sysroot]
}

/// `p` is a directory strictly above `d`.
pub open spec fn is_above(p: Seq<char>, d: Seq<char>) -> bool {
    is_prefix(p + "/"@, d)
}

/// `p` lies in a guarded tree or above one, the tree taken as it stands or
/// re-rooted under the sysroot.
pub open spec fn is_protected(p: Seq<char>, sysroot: Seq<char>) -> bool {
    exists|k: int|
        0 <= k < 4 && (is_under(p, #[trigger] guarded(sysroot)[k]) || is_under(p, sysroot + guarded(sysroot)[k])
            || is_above(p, guarded(sysroot)[k]) || is_above(p, sysroot + guarded(sysroot)[k]))
}

/// A directory that the purge removes: it lies on the in-memory root
/// (filesystem id 0), is not `/` and is not protected.
pub open spec fn purge_spec(p: Seq<char>, fs_id: u64, is_dir: bool, sysroot: Seq<char>) -> bool {
    fs_id == 0 && is_dir && p != "/"@ && !is_protected(p, sysroot)
}

/// The pseudo-filesystems to mount before devices are probed.
pub fn sys_mounts() -> (r: Vec<SystemDir>)
    ensures
        mount_views(r@) == pseudo_mounts(),
{
    let mut r: Vec<SystemDir> = Vec::new();
    r.push(SystemDir { fstype: String::from_str("proc"), dev: String::from_str("none"), dst: String::from_str("/proc") });
    r.push(SystemDir { fstype: String::from_str("sysfs"), dev: String::from_str("none"), dst: String::from_str("/sys") });
    r.push(
        SystemDir {
            fstype: String::from_str("devtmpfs"),
            dev: String::from_str("devtmpfs"),
            dst: String::from_str("/dev"),
        },
    );
    assert(mount_views(r@) =~= pseudo_mounts());
    r
}

/// The move-mounts that carry each pseudo-filesystem under the sysroot.
pub fn rehome_mounts(sysroot: &str) -> (r: Vec<SystemDir>)
    ensures
        mount_views(r@) == rehomed(sysroot@),
{
    let sys = sys_mounts();
    assert(mount_views(sys@).len() == sys@.len());
    let mut r: Vec<SystemDir> = Vec::new();
    let mut i: usize = 0;
    while i < sys.len()
        invariant
            i <= sys@.len(),
            sys@.len() == 3,
            mount_views(sys@) == pseudo_mounts(),
            mount_views(r@) == rehomed(sysroot@).subrange(0, i as int),
        decreases sys@.len() - i,
    {
        let m = &sys[i];
        assert(pseudo_mounts()[i as int] == m@);
        let ghost before = mount_views(r@);
        r.push(SystemDir { fstype: m.fstype.clone(), dev: m.dst.clone(), dst: join2(sysroot, m.dst.as_str()) });
        assert(mount_views(r@) =~= before.push(rehomed(sysroot@)[i as int]));
        assert(rehomed(sysroot@).subrange(0, i + 1) =~= rehomed(sysroot@).subrange(0, i as int).push(
            rehomed(sysroot@)[i as int],
        ));
        i = i + 1;
    }
    assert(rehomed(sysroot@).subrange(0, 3) =~= rehomed(sysroot@));
    r
}

/// Resolves a disk selector against the probed devices; `sel_is_uuid`
/// tells whether the selector has UUID syntax.
pub fn resolve_device(sel: &str, sel_is_uuid: bool, blk: &BlkInfo) -> (r: Option<String>)
    ensures
        match r {
            Some(p) => resolve_spec(sel@, sel_is_uuid, blk@) == Some(p@),
            None => resolve_spec(sel@, sel_is_uuid, blk@).is_none(),
        },
{
    let p: String = if sel_is_uuid {
        match blk.by_uuid(sel) {
            Some(d) => String::from_str(d.get_path()),
            None => String::new(),
        }
    } else if starts_with(sel, "/dev") {
        String::from_str(sel)
    } else {
        match blk.by_label(sel) {
            Some(d) => String::from_str(d.get_path()),
            None => String::new(),
        }
    };
    if p.unicode_len() > 0 {
        Some(p)
    } else {
        None
    }
}

/// The mounts and the root filesystem type for the given disks, before
/// ordering; `flags[i]` tells whether the selector of `disks[i]` has UUID
/// syntax.
pub fn mount_plan(disks: &Vec<MhConfDisk>, flags: &Vec<bool>, sysroot: &str, blk: &BlkInfo) -> (r: (
    String,
    Vec<SystemDir>,
))
    requires
        flags@.len() == disks@.len(),
    ensures
        r.0@ == root_fstype_spec(disk_views(disks@)),
        mount_views(r.1@) == plan_spec(disk_views(disks@), flags@, sysroot@, blk@),
{
    let mut root_fstype = String::new();
    let mut found = false;
    let mut plan: Vec<SystemDir> = Vec::new();
    let mut i: usize = 0;
    let ghost dv = disk_views(disks@);
    assert(dv.subrange(0, 0) =~= Seq::<DiskView>::empty());
    while i < disks.len()
        invariant
            i <= disks@.len(),
            flags@.len() == disks@.len(),
            dv == disk_views(disks@),
            root_fstype@ == root_fstype_spec(dv.subrange(0, i as int)),
            found == has_root_disk(dv.subrange(0, i as int)),
            mount_views(plan@) == plan_spec(dv.subrange(0, i as int), flags@.subrange(0, i as int), sysroot@, blk@),
        decreases disks@.len() - i,
    {
        let dev = &disks[i];
        let ghost sub = dv.subrange(0, i + 1);
        assert(sub.drop_last() =~= dv.subrange(0, i as int));
        assert(flags@.subrange(0, i + 1).drop_last() =~= flags@.subrange(0, i as int));
        assert(sub.last() == dev@);
        let mpt = trim_trailing_slashes(dev.get_mountpoint());
        if mpt.unicode_len() == 0 && !found {
            root_fstype = String::from_str(dev.get_fstype());
        }
        if mpt.unicode_len() == 0 {
            found = true;
        }
        match resolve_device(dev.get_device(), flags[i], blk) {
            Some(p) => {
                let dst = join2(sysroot, mpt.as_str());
                let ghost before = mount_views(plan@);
                plan.push(SystemDir { fstype: String::from_str(dev.get_fstype()), dev: p, dst });
                assert(mount_views(plan@) =~= before.push(mount_views(plan@).last()));
            },
            None => {},
        }
        i = i + 1;
    }
    assert(dv.subrange(0, i as int) =~= dv);
    assert(flags@.subrange(0, i as int) =~= flags@);
    (root_fstype, plan)
}

/// Orders mounts by destination, so that a mountpoint comes after every
/// mountpoint that is a prefix of it.
pub fn sort_by_destination(v: Vec<SystemDir>) -> (r: Vec<SystemDir>)
    ensures
        mount_views(r@).to_multiset() == mount_views(v@).to_multiset(),
        sorted_by_dest(mount_views(r@)),
{
    let mut r: Vec<SystemDir> = Vec::new();
    let mut k: usize = 0;
    let ghost vv = mount_views(v@);
    broadcast use vstd::seq_lib::group_to_multiset_ensures;
    assert(vv.subrange(0, 0) =~= Seq::<MountView>::empty());
    assert(mount_views(r@) =~= Seq::<MountView>::empty());
    while k < v.len()
        invariant
            k <= v@.len(),
            vv == mount_views(v@),
            mount_views(r@).to_multiset() == vv.subrange(0, k as int).to_multiset(),
            sorted_by_dest(mount_views(r@)),
        decreases v@.len() - k,
    {
        let x = SystemDir { fstype: v[k].fstype.clone(), dev: v[k].dev.clone(), dst: v[k].dst.clone() };
        assert(x@ == vv[k as int]);
        let ghost rv = mount_views(r@);
        let mut j: usize = 0;
        while j < r.len() && path_le(r[j].dst.as_str(), x.dst.as_str())
            invariant
                j <= r@.len(),
                rv == mount_views(r@),
                forall|m: int| 0 <= m < j ==> lex_le(#[trigger] rv[m].dest, x@.dest),
            decreases r@.len() - j,
        {
            j = j + 1;
        }
        proof {
            if j < r@.len() {
                lemma_lex_total(x@.dest, rv[j as int].dest);
                assert forall|m: int| j <= m < rv.len() implies lex_le(x@.dest, #[trigger] rv[m].dest) by {
                    if m > j {
                        lemma_lex_trans(x@.dest, rv[j as int].dest, rv[m].dest);
                    }
                }
            }
        }
        r.insert(j, x);
        proof {
            let nv = mount_views(r@);
            assert(nv =~= rv.insert(j as int, x@));
            to_multiset_insert(rv, j as int, x@);
            assert(vv.subrange(0, k + 1) =~= vv.subrange(0, k as int).push(vv[k as int]));
            to_multiset_build(vv.subrange(0, k as int), vv[k as int]);
            assert(nv.to_multiset() == vv.subrange(0, k + 1).to_multiset());
            assert forall|a: int, b: int| 0 <= a < b < nv.len() implies lex_le(
                #[trigger] nv[a].dest,
                #[trigger] nv[b].dest,
            ) by {
                if b < j {
                } else if b == j {
                    assert(nv[a] == rv[a]);
                } else if a < j {
                    assert(nv[a] == rv[a] && nv[b] == rv[b - 1]);
                    lemma_lex_trans(rv[a].dest, x@.dest, rv[b - 1].dest);
                } else if a == j {
                    assert(nv[b] == rv[b - 1]);
                } else {
                    assert(nv[a] == rv[a - 1] && nv[b] == rv[b - 1]);
                }
            }
        }
        k = k + 1;
    }
    assert(vv.subrange(0, v@.len() as int) =~= vv);
    r
}

/// The mounts for a configuration's disks against the probed devices, in
/// mounting order, and the root filesystem type (empty when no disk is
/// mounted at the root).
pub fn get_blk_devices(cfg: &MhConfig, blk: &BlkInfo) -> (r: Result<(String, Vec<SystemDir>), ConfError>)
    ensures
        r.is_ok() == disks_valid(cfg@),
        r matches Ok((fstype, v)) ==> {
            let disks = cfg@.disks.map_values(|p: (Seq<char>, Seq<char>)| disk_of(p.0, p.1));
            &&& fstype@ == root_fstype_spec(disks)
            &&& mount_views(v@).to_multiset() == plan_spec(
                disks,
                uuid_flags(disks),
                sysroot_path(cfg@),
                blk@,
            ).to_multiset()
            &&& sorted_by_dest(mount_views(v@))
        },
{
    let disks = cfg.get_disks()?;
    let flags = selector_flags(&disks);
    let sysroot = cfg.get_sysroot_path();
    let (root_fstype, plan) = mount_plan(&disks, &flags, sysroot.as_str(), blk);
    Ok((root_fstype, sort_by_destination(plan)))
}

/// Whether each disk's selector has UUID syntax.
pub fn selector_flags(disks: &Vec<MhConfDisk>) -> (r: Vec<bool>)
    ensures
        r@ == uuid_flags(disk_views(disks@)),
{
    let ghost dv = disk_views(disks@);
    let mut flags: Vec<bool> = Vec::new();
    let mut i: usize = 0;
    while i < disks.len()
        invariant
            i <= disks@.len(),
            dv == disk_views(disks@),
            flags@ == uuid_flags(dv).subrange(0, i as int),
        decreases disks@.len() - i,
    {
        let f = is_uuid(disks[i].get_device());
        flags.push(f);
        assert(flags@ =~= uuid_flags(dv).subrange(0, i + 1));
        i = i + 1;
    }
    assert(flags@ =~= uuid_flags(dv));
    flags
}

/// `p` is `d` or lies beneath it.
fn path_under(p: &str, d: &str) -> (r: bool)
    ensures
        r == is_under(p@, d@),
{
    if str_eq(p, d) {
        return true;
    }
    let dir = join2(d, "/");
    starts_with(p, dir.as_str())
}

/// Whether the root purge removes the directory `path`, given the id of
/// the filesystem it lies on.
pub fn purge_candidate(path: &str, fs_id: u64, is_dir: bool, sysroot: &str) -> (r: bool)
    ensures
        r == purge_spec(path@, fs_id, is_dir, sysroot@),
{
    if fs_id != 0 || !is_dir || str_eq(path, "/") {
        return false;
    }
    let roots: [&str; 4] = ["/proc", "/sys", "/dev", sysroot];
    let ghost g = guarded(sysroot@);
    let mut k: usize = 0;
    while k < 4
        invariant
            k <= 4,
            g == guarded(sysroot@),
            roots@.len() == 4,
            forall|m: int| 0 <= m < 4 ==> (#[trigger] roots@[m])@ == g[m],
            forall|m: int|
                0 <= m < k ==> !(is_under(path@, #[trigger] g[m]) || is_under(path@, sysroot@ + g[m]) || is_above(
                    path@,
                    g[m],
                ) || is_above(path@, sysroot@ + g[m])),
        decreases 4 - k,
    {
        let d = roots[k];
        let rerooted = join2(sysroot, d);
        let dir = join2(path, "/");
        if path_under(path, d) || path_under(path, rerooted.as_str()) || starts_with(d, dir.as_str()) || starts_with(
            rerooted.as_str(),
            dir.as_str(),
        ) {
            assert(is_protected(path@, sysroot@));
            return false;
        }
        k = k + 1;
    }
    true
}

/// A selector with UUID syntax is resolved through the UUID table alone:
/// a device whose label reads the same never decides it.
pub proof fn lemma_uuid_wins(sel: Seq<char>, devs: Seq<BlkDevView>)
    ensures
        resolve_spec(sel, true, devs) == (if found_path(first_dev(devs, has_uuid(sel))).len() > 0 {
            Some(found_path(first_dev(devs, has_uuid(sel))))
        } else {
            None
        }),
{
}

/// A selector with UUID syntax names the path of the first device whose
/// UUID it is, whatever labels other devices carry.
pub proof fn lemma_uuid_lookup_wins(sel: Seq<char>, devs: Seq<BlkDevView>, i: int)
    requires
        is_first(devs, i, has_uuid(sel)),
        devs[i].path.len() > 0,
    ensures
        resolve_spec(sel, true, devs) == Some(devs[i].path),
{
    let k = choose|k: int| is_first(devs, k, has_uuid(sel));
    lemma_first_unique(devs, i, k, has_uuid(sel));
}

/// The root purge never removes anything in `/proc`, `/sys`, `/dev` or the
/// sysroot, nor in those trees re-rooted under the sysroot where the disks
/// are mounted, nor a directory that holds the sysroot.
pub proof fn lemma_purge_spares(p: Seq<char>, fs_id: u64, is_dir: bool, sysroot: Seq<char>)
    requires
        is_under(p, "/proc"@) || is_under(p, "/sys"@) || is_under(p, "/dev"@) || is_under(p, sysroot)
            || is_under(p, sysroot + "/proc"@) || is_under(p, sysroot + "/sys"@) || is_under(p, sysroot + "/dev"@)
            || is_above(p, sysroot),
    ensures
        !purge_spec(p, fs_id, is_dir, sysroot),
{
    let g = guarded(sysroot);
    if is_under(p, "/proc"@) || is_under(p, sysroot + "/proc"@) {
        assert(g[0] == "/proc"@);
    } else if is_under(p, "/sys"@) || is_under(p, sysroot + "/sys"@) {
        assert(g[1] == "/sys"@);
    } else if is_under(p, "/dev"@) || is_under(p, sysroot + "/dev"@) {
        assert(g[2] == "/dev"@);
    } else {
        assert(g[3] == sysroot);
    }
}

/// In mounting order, a mount whose destination lies strictly above
/// another's comes first: the sysroot before anything nested in it.
pub proof fn lemma_parent_mounted_first(s: Seq<MountView>, i: int, j: int)
    requires
        sorted_by_dest(s),
        0 <= i < s.len(),
        0 <= j < s.len(),
        is_prefix(s[i].dest, s[j].dest),
        s[i].dest.len() < s[j].dest.len(),
    ensures
        i < j,
{
    lemma_extension_sorts_after(s[i].dest, s[j].dest);
    if j < i {
        assert(lex_le(s[j].dest, s[i].dest));
    }
}

} // verus!
