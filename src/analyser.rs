//! Analysis of the running system, for a starter configuration: which
//! device holds the root filesystem, and the configuration text for it.
use vstd::prelude::*;
use crate::blk::{BlkDev, BlkDevView, BlkInfo, fields, first_dev, has_path, line_fields, mount_criterion};
use crate::text::{split_on, views, split_char, str_eq};

verus! {

/// The source of the first mount-table line whose mountpoint (second
/// field) is `/`.
pub open spec fn root_source(lines: Seq<Seq<char>>) -> Option<Seq<char>>
    decreases lines.len(),
{
    if lines.len() == 0 {
        None
    } else {
        let f = fields(lines[0]);
        if f.len() > 1 && f[1] == "/"@ {
            Some(f[0])
        } else {
            root_source(lines.drop_first())
        }
    }
}

/// One `  - name` line per module.
pub open spec fn starter_module_lines(mods: Seq<Seq<char>>) -> Seq<char>
    decreases mods.len(),
{
    if mods.len() == 0 {
        Seq::empty()
    } else {
        starter_module_lines(mods.drop_last()) + "  - "@ + mods.last() + "\n"@
    }
}

/// A starter configuration: the given modules, the root device mounted
/// read-write at `/`, `/sbin/init`, the `/sysroot` sysroot and debug logging.
pub open spec fn starter_config(mods: Seq<Seq<char>>, root: BlkDevView) -> Seq<char> {
    "modules:\n"@ + starter_module_lines(mods) + "\ndisks:\n  "@ + mount_criterion(root) + ": "@ + root.fstype
        + ",/,rw\n\ninit: /sbin/init\nsysroot: /sysroot\nlog: debug\n"@
}

/// Analyser of the current system, used to regenerate an image after a
/// kernel update.
pub struct SysAnalyser {}

impl SysAnalyser {
    pub fn new() -> (r: SysAnalyser) {
        SysAnalyser {  }
    }

    /// The device mounted at `/`, from the text of the mount table.
    pub fn get_root_device_path(&self, mounts: &str) -> (r: Option<String>)
        ensures
            match r {
                Some(p) => root_source(split_on(mounts@, '\n')) == Some(p@),
                None => root_source(split_on(mounts@, '\n')).is_none(),
            },
    {
        let lines = split_char(mounts, '\n');
        let ghost lv = views(lines@);
        let mut i: usize = 0;
        assert(lv.subrange(0, lv.len() as int) =~= lv);
        while i < lines.len()
            invariant
                i <= lines@.len(),
                lv == views(lines@),
                lv == split_on(mounts@, '\n'),
                root_source(lv) == root_source(lv.subrange(i as int, lv.len() as int)),
            decreases lines@.len() - i,
        {
            let ghost rest = lv.subrange(i as int, lv.len() as int);
            assert(rest[0] == lines@[i as int]@);
            assert(rest.drop_first() =~= lv.subrange(i + 1, lv.len() as int));
            let f = line_fields(lines[i].as_str());
            if f.len() > 1 && str_eq(f[1].as_str(), "/") {
                assert(views(f@)[1] == f@[1]@ && views(f@)[0] == f@[0]@);
                assert(fields(rest[0]) == views(f@));
                assert(root_source(rest) == Some(views(f@)[0]));
                let p = f[0].clone();
                assert(p@ == views(f@)[0]);
                return Some(p);
            }
            assert(f.len() > 1 ==> views(f@)[1] == f@[1]@);
            i = i + 1;
        }
        None
    }

    /// The first probed device whose path is `root_path`.
    pub fn get_root_disk(&self, root_path: &str, blk: &BlkInfo) -> (r: Option<BlkDev>)
        ensures
            match r {
                Some(d) => first_dev(blk@, has_path(root_path@)) == Some(d@),
                None => first_dev(blk@, has_path(root_path@)).is_none(),
            },
    {
        match blk.by_path(root_path) {
            Some(d) => Some(
                BlkDev::new(
                    String::from_str(d.get_path()),
                    String::from_str(d.get_uuid()),
                    String::from_str(d.get_label()),
                    String::from_str(d.get_fstype()),
                ),
            ),
            None => None,
        }
    }

    /// The starter configuration for the given main modules and root device.
    pub fn get_config(&self, mods: &Vec<String>, root: &BlkDev) -> (r: String)
        ensures
            r@ == starter_config(views(mods@), root@),
    {
        let mut text = String::from_str("modules:\n");
        let ghost head = text@;
        let mut i: usize = 0;
        assert(views(mods@).subrange(0, 0) =~= Seq::<Seq<char>>::empty());
        while i < mods.len()
            invariant
                i <= mods@.len(),
                text@ == head + starter_module_lines(views(mods@).subrange(0, i as int)),
            decreases mods@.len() - i,
        {
            assert(views(mods@).subrange(0, i + 1).drop_last() =~= views(mods@).subrange(0, i as int));
            assert(views(mods@)[i as int] == mods@[i as int]@);
            text.append("  - ");
            text.append(mods[i].as_str());
            text.append("\n");
            assert(text@ =~= head + starter_module_lines(views(mods@).subrange(0, i + 1)));
            i = i + 1;
        }
        assert(views(mods@).subrange(0, i as int) =~= views(mods@));
        text.append("\ndisks:\n  ");
        text.append(root.get_mount_criterion());
        text.append(": ");
        text.append(root.get_fstype());
        text.append(",/,rw\n\ninit: /sbin/init\nsysroot: /sysroot\nlog: debug\n");
        assert(text@ =~= starter_config(views(mods@), root@));
        text
    }
}

} // verus!
