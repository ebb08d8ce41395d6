//! Layout of a boot image: its directories, the module files to copy in
//! dependency order, and the boot configuration it carries.
use vstd::prelude::*;
use crate::conf::{ConfError, ConfigView, MhConfig, DiskView, disk_views, disks_valid, disk_of, init_path,
    sysroot_path};
use crate::text::{split_on, trim_start_slashes, views, split_char, join2, trim_leading_slashes};

verus! {

/// A requested module and the modules it depends on, as the dependency
/// resolver hands them over (paths relative to the kernel's module tree).
pub type DepTreeView = Seq<(Seq<char>, Seq<Seq<char>>)>;

pub open spec fn tree_view(t: Seq<(String, Vec<String>)>) -> DepTreeView {
    t.map_values(|e: (String, Vec<String>)| (e.0@, views(e.1@)))
}

/// The dependencies of every entry, entry after entry.
pub open spec fn all_deps(t: DepTreeView) -> Seq<Seq<char>>
    decreases t.len(),
{
    if t.len() == 0 {
        Seq::empty()
    } else {
        all_deps(t.drop_last()) + t.last().1
    }
}

/// The requested modules themselves.
pub open spec fn mains(t: DepTreeView) -> Seq<Seq<char>> {
    t.map_values(|e: (Seq<char>, Seq<Seq<char>>)| e.0)
}

/// The order in which modules are copied and loaded: every dependency,
/// then the modules that were requested.
pub open spec fn load_order(t: DepTreeView) -> Seq<Seq<char>> {
    all_deps(t) + mains(t)
}

/// A module's name: its file name up to the first `.`.
pub open spec fn module_name(path: Seq<char>) -> Seq<char> {
    split_on(split_on(path, '/').last(), '.')[0]
}

/// Directory that holds the modules of kernel `kname`, relative to the image root.
pub open spec fn kernel_root(kname: Seq<char>) -> Seq<char> {
    "lib/modules/"@ + kname
}

/// The directories every image has, relative to its root.
pub open spec fn image_dirs(sysroot: Seq<char>, kname: Seq<char>) -> Seq<Seq<char>> {
    seq!["bin"@, "etc"@, "proc"@, "dev"@, "sys"@, trim_start_slashes(sysroot), kernel_root(kname)]
}

pub const CONFIG_BANNER: &'static str = "# Achtung Alles Lookenskepers!
#
# Das konfiguration ist nicht fuer gefingerpoken und
# mittengrabben. Ist easy das machine schnappen der springenwerk,
# blowenfusen und poppencorken mit spitzensparken. Das rubbernecken
# sichtseeren keepen das cotten-pickenen hands in das pockets
# muss.
#
# Relaxen und watchen das blinkenlichten.";

/// One `  - name` line per module.
pub open spec fn module_lines(paths: Seq<Seq<char>>) -> Seq<char>
    decreases paths.len(),
{
    if paths.len() == 0 {
        Seq::empty()
    } else {
        module_lines(paths.drop_last()) + "  - "@ + module_name(paths.last()) + "\n"@
    }
}

/// One `  device: fstype,mountpoint,mode` line per disk.
pub open spec fn disk_lines(disks: Seq<DiskView>) -> Seq<char>
    decreases disks.len(),
{
    if disks.len() == 0 {
        Seq::empty()
    } else {
        let d = disks.last();
        disk_lines(disks.drop_last()) + "  "@ + d.device + ": "@ + d.fstype + ","@ + d.mountpoint + ","@
            + d.mode + "\n"@
    }
}

/// The boot configuration that an image carries.
pub open spec fn config_text(order: Seq<Seq<char>>, c: ConfigView) -> Seq<char> {
    let disks = c.disks.map_values(|p: (Seq<char>, Seq<char>)| disk_of(p.0, p.1));
    CONFIG_BANNER@ + "\n\n"@ + "modules:\n"@ + module_lines(order) + "\n"@ + "disks:\n"@ + disk_lines(disks) + "\n"@
        + "init: "@ + init_path(c) + "\n"@ + "sysroot: "@ + sysroot_path(c) + "\n"@ + match c.log {
        Some(l) => "log: "@ + l + "\n"@,
        None => Seq::empty(),
    }
}

/// Why an image could not be laid out.
#[derive(Debug)]
pub enum BuildError {
    /// The destination exists already; nothing is written into it.
    AlreadyExists,
    /// The configuration does not parse.
    Config(ConfError),
}

/// Everything an image build writes, relative to the destination.
pub struct ImagePlan {
    /// Directories to create, in order.
    pub dirs: Vec<String>,
    /// Where the boot sequencer binary goes; it is made executable.
    pub binary: String,
    /// The symlink the kernel runs as the first process, and its target.
    pub init_link: (String, String),
    /// Each module file: its path in the kernel tree and its path in the image.
    pub copies: Vec<(String, String)>,
    /// Where the boot configuration goes, and its text.
    pub config: (String, String),
}

pub open spec fn copy_views(s: Seq<(String, String)>) -> Seq<(Seq<char>, Seq<char>)> {
    s.map_values(|p: (String, String)| (p.0@, p.1@))
}

/// The copies for the modules in `order`, from the kernel tree into `kroot`.
pub open spec fn copies_spec(order: Seq<Seq<char>>, kroot: Seq<char>) -> Seq<(Seq<char>, Seq<char>)> {
    order.map_values(|m: Seq<char>| (m, kroot + "/"@ + m))
}

/// Lists every dependency of the tree, then every requested module.
pub fn module_order(tree: &Vec<(String, Vec<String>)>) -> (r: Vec<String>)
    ensures
        views(r@) == load_order(tree_view(tree@)),
{
    let ghost tv = tree_view(tree@);
    let mut out: Vec<String> = Vec::new();
    let mut i: usize = 0;
    assert(tv.subrange(0, 0) =~= DepTreeView::empty());
    while i < tree.len()
        invariant
            i <= tree@.len(),
            tv == tree_view(tree@),
            views(out@) == all_deps(tv.subrange(0, i as int)),
        decreases tree@.len() - i,
    {
        let deps = &tree[i].1;
        assert(tv[i as int].1 == views(deps@));
        assert(tv.subrange(0, i + 1).drop_last() =~= tv.subrange(0, i as int));
        let ghost base = views(out@);
        let mut k: usize = 0;
        while k < deps.len()
            invariant
                k <= deps@.len(),
                views(out@) == base + views(deps@).subrange(0, k as int),
            decreases deps@.len() - k,
        {
            let ghost before = views(out@);
            let d = deps[k].clone();
            assert(d@ == views(deps@)[k as int]);
            out.push(d);
            assert(views(out@) =~= before.push(d@));
            assert(views(deps@).subrange(0, k + 1) =~= views(deps@).subrange(0, k as int).push(d@));
            assert(views(out@) =~= base + views(deps@).subrange(0, k + 1));
            k = k + 1;
        }
        assert(views(deps@).subrange(0, k as int) =~= views(deps@));
        i = i + 1;
    }
    assert(tv.subrange(0, i as int) =~= tv);
    let ghost deps_part = views(out@);
    let mut i: usize = 0;
    while i < tree.len()
        invariant
            i <= tree@.len(),
            tv == tree_view(tree@),
            deps_part == all_deps(tv),
            views(out@) == deps_part + mains(tv).subrange(0, i as int),
        decreases tree@.len() - i,
    {
        let ghost before = views(out@);
        let m = tree[i].0.clone();
        assert(m@ == mains(tv)[i as int]);
        out.push(m);
        assert(views(out@) =~= before.push(m@));
        assert(views(out@) =~= deps_part + mains(tv).subrange(0, i + 1));
        i = i + 1;
    }
    assert(mains(tv).subrange(0, i as int) =~= mains(tv));
    out
}

/// A module's name: its file name up to the first `.`.
pub fn get_module_name(path: &str) -> (r: String)
    ensures
        r@ == module_name(path@),
{
    let parts = split_char(path, '/');
    proof {
        crate::text::lemma_split_nonempty(path@, '/');
    }
    let file = &parts[parts.len() - 1];
    assert(file@ == split_on(path@, '/').last());
    let pieces = split_char(file.as_str(), '.');
    proof {
        crate::text::lemma_split_nonempty(file@, '.');
    }
    assert(views(pieces@)[0] == pieces@[0]@);
    pieces[0].clone()
}

/// The directories of an image whose kernel tree is named `kname`.
pub fn ramfs_dirs(sysroot: &str, kname: &str) -> (r: Vec<String>)
    ensures
        views(r@) == image_dirs(sysroot@, kname@),
{
    let mut r: Vec<String> = Vec::new();
    r.push(String::from_str("bin"));
    r.push(String::from_str("etc"));
    r.push(String::from_str("proc"));
    r.push(String::from_str("dev"));
    r.push(String::from_str("sys"));
    r.push(trim_leading_slashes(sysroot));
    r.push(join2("lib/modules/", kname));
    assert(views(r@) =~= image_dirs(sysroot@, kname@));
    r
}

/// The boot configuration text for the modules in `order` and the
/// disks, init program, sysroot and log level of `cfg`.
pub fn write_boot_config(order: &Vec<String>, cfg: &MhConfig) -> (r: Result<String, ConfError>)
    ensures
        r.is_ok() == disks_valid(cfg@),
        r matches Ok(t) ==> t@ == config_text(views(order@), cfg@),
{
    let disks = cfg.get_disks()?;
    let mut text = join2(CONFIG_BANNER, "\n\n");
    text.append("modules:\n");
    let ghost head = text@;
    let mut i: usize = 0;
    assert(views(order@).subrange(0, 0) =~= Seq::<Seq<char>>::empty());
    while i < order.len()
        invariant
            i <= order@.len(),
            text@ == head + module_lines(views(order@).subrange(0, i as int)),
        decreases order@.len() - i,
    {
        assert(views(order@).subrange(0, i + 1).drop_last() =~= views(order@).subrange(0, i as int));
        assert(views(order@)[i as int] == order@[i as int]@);
        let name = get_module_name(order[i].as_str());
        text.append("  - ");
        text.append(name.as_str());
        text.append("\n");
        assert(text@ =~= head + module_lines(views(order@).subrange(0, i + 1)));
        i = i + 1;
    }
    assert(views(order@).subrange(0, i as int) =~= views(order@));
    text.append("\n");
    text.append("disks:\n");
    let ghost head2 = text@;
    let ghost dv = disk_views(disks@);
    let mut k: usize = 0;
    assert(dv.subrange(0, 0) =~= Seq::<DiskView>::empty());
    while k < disks.len()
        invariant
            k <= disks@.len(),
            dv == disk_views(disks@),
            text@ == head2 + disk_lines(dv.subrange(0, k as int)),
        decreases disks@.len() - k,
    {
        let d = &disks[k];
        assert(dv.subrange(0, k + 1).drop_last() =~= dv.subrange(0, k as int));
        assert(dv[k as int] == d@);
        text.append("  ");
        text.append(d.get_device());
        text.append(": ");
        text.append(d.get_fstype());
        text.append(",");
        text.append(d.get_mountpoint());
        text.append(",");
        text.append(d.get_mode());
        text.append("\n");
        assert(text@ =~= head2 + disk_lines(dv.subrange(0, k + 1)));
        k = k + 1;
    }
    assert(dv.subrange(0, k as int) =~= dv);
    text.append("\n");
    text.append("init: ");
    let init = cfg.get_init_path();
    text.append(init.as_str());
    text.append("\n");
    text.append("sysroot: ");
    let sysroot = cfg.get_sysroot_path();
    text.append(sysroot.as_str());
    text.append("\n");
    match cfg.get_log_level_as_str() {
        Some(l) => {
            text.append("log: ");
            text.append(l.as_str());
            text.append("\n");
        },
        None => {},
    }
    assert(text@ =~= config_text(views(order@), cfg@));
    Ok(text)
}

/// Lays out an image for kernel tree `kname` from the resolver's
/// dependency tree and the configuration. An existing destination is
/// refused before anything is planned.
pub fn generate(dest_exists: bool, kname: &str, tree: &Vec<(String, Vec<String>)>, cfg: &MhConfig) -> (r: Result<
    ImagePlan,
    BuildError,
>)
    ensures
        dest_exists ==> r matches Err(BuildError::AlreadyExists),
        !dest_exists ==> (r.is_ok() == disks_valid(cfg@)),
        r matches Err(BuildError::Config(_)) ==> !disks_valid(cfg@),
        r matches Ok(p) ==> {
            let order = load_order(tree_view(tree@));
            &&& views(p.dirs@) == image_dirs(sysroot_path(cfg@), kname@)
            &&& p.binary@ == "bin/microhop"@
            &&& p.init_link.0@ == "init"@ && p.init_link.1@ == "bin/microhop"@
            &&& copy_views(p.copies@) == copies_spec(order, kernel_root(kname@))
            &&& p.config.0@ == "etc/microhop.conf"@
            &&& p.config.1@ == config_text(order, cfg@)
        },
{
    if dest_exists {
        return Err(BuildError::AlreadyExists);
    }
    let sysroot = cfg.get_sysroot_path();
    let dirs = ramfs_dirs(sysroot.as_str(), kname);
    let kroot = join2("lib/modules/", kname);
    let order = module_order(tree);
    let mut copies: Vec<(String, String)> = Vec::new();
    let mut i: usize = 0;
    let ghost ov = views(order@);
    while i < order.len()
        invariant
            i <= order@.len(),
            ov == views(order@),
            kroot@ == kernel_root(kname@),
            copy_views(copies@) == copies_spec(ov, kroot@).subrange(0, i as int),
        decreases order@.len() - i,
    {
        let m = &order[i];
        assert(ov[i as int] == m@);
        let dst = join2(join2(kroot.as_str(), "/").as_str(), m.as_str());
        let ghost before = copy_views(copies@);
        let src = m.clone();
        assert(copies_spec(ov, kroot@)[i as int] == (src@, dst@));
        copies.push((src, dst));
        assert(copy_views(copies@) =~= before.push((src@, dst@)));
        assert(copy_views(copies@) =~= copies_spec(ov, kroot@).subrange(0, i + 1));
        i = i + 1;
    }
    assert(copies_spec(ov, kroot@).subrange(0, i as int) =~= copies_spec(ov, kroot@));
    let text = match write_boot_config(&order, cfg) {
        Ok(t) => t,
        Err(e) => {
            return Err(BuildError::Config(e));
        },
    };
    Ok(
        ImagePlan {
            dirs,
            binary: String::from_str("bin/microhop"),
            init_link: (String::from_str("init"), String::from_str("bin/microhop")),
            copies,
            config: (String::from_str("etc/microhop.conf"), text),
        },
    )
}

/// Proof that every dependency of a requested module is listed in
/// `all_deps`.
proof fn lemma_dep_listed(t: DepTreeView, i: int, k: int)
    requires
        0 <= i < t.len(),
        0 <= k < t[i].1.len(),
    ensures
        exists|j: int| 0 <= j < all_deps(t).len() && all_deps(t)[j] == t[i].1[k],
    decreases t.len(),
{
    let prev = all_deps(t.drop_last());
    if i == t.len() - 1 {
        assert(all_deps(t)[prev.len() + k] == t[i].1[k]);
    } else {
        lemma_dep_listed(t.drop_last(), i, k);
        let j = choose|j: int| 0 <= j < prev.len() && prev[j] == t.drop_last()[i].1[k];
        assert(all_deps(t)[j] == t[i].1[k]);
    }
}

/// In the load order, every requested module comes after each of the
/// dependencies the resolver listed for it.
pub proof fn lemma_dependencies_first(t: DepTreeView, i: int, k: int)
    requires
        0 <= i < t.len(),
        0 <= k < t[i].1.len(),
    ensures
        load_order(t)[all_deps(t).len() + i] == t[i].0,
        exists|j: int| 0 <= j < all_deps(t).len() + i && load_order(t)[j] == t[i].1[k],
{
    lemma_dep_listed(t, i, k);
    let j = choose|j: int| 0 <= j < all_deps(t).len() && all_deps(t)[j] == t[i].1[k];
    assert(load_order(t)[j] == t[i].1[k]);
}

/// The resolver's output is closed and ordered: wherever a requested
/// module is listed as a dependency of another, each of its own
/// dependencies is listed before it in that same list.
pub open spec fn deps_closed(t: DepTreeView) -> bool {
    forall|i: int, j: int, k: int, d: int|
        #![trigger t[j].1[k], t[i].1[d]]
        0 <= i < t.len() && 0 <= j < t.len() && 0 <= k < t[j].1.len() && 0 <= d < t[i].1.len() && t[j].1[k]
            == t[i].0 ==> exists|k2: int| 0 <= k2 < k && t[j].1[k2] == t[i].1[d]
}

/// Position `q` of `all_deps(t)` is dependency `k` of entry `j`.
proof fn lemma_all_deps_index(t: DepTreeView, q: int) -> (jk: (int, int))
    requires
        0 <= q < all_deps(t).len(),
    ensures
        0 <= jk.0 < t.len(),
        0 <= jk.1 < t[jk.0].1.len(),
        q == all_deps(t.subrange(0, jk.0)).len() + jk.1,
        forall|k2: int|
            0 <= k2 < t[jk.0].1.len() ==> #[trigger] all_deps(t)[all_deps(t.subrange(0, jk.0)).len() + k2]
                == t[jk.0].1[k2],
    decreases t.len(),
{
    let prev = t.drop_last();
    let base = all_deps(prev).len();
    if q < base {
        let (j, k) = lemma_all_deps_index(prev, q);
        assert(prev.subrange(0, j) =~= t.subrange(0, j));
        assert forall|k2: int| 0 <= k2 < t[j].1.len() implies #[trigger] all_deps(t)[all_deps(t.subrange(0, j)).len()
            + k2] == t[j].1[k2] by {
            assert(all_deps(prev)[all_deps(prev.subrange(0, j)).len() + k2] == prev[j].1[k2]);
            lemma_all_deps_prefix_len(prev, j);
        }
        (j, k)
    } else {
        let j = t.len() - 1;
        assert(t.subrange(0, j) =~= prev);
        (j, q - base)
    }
}

proof fn lemma_all_deps_prefix_len(t: DepTreeView, j: int)
    requires
        0 <= j < t.len(),
    ensures
        all_deps(t.subrange(0, j)).len() + t[j].1.len() <= all_deps(t).len(),
    decreases t.len(),
{
    if j < t.len() - 1 {
        assert(t.drop_last().subrange(0, j) =~= t.subrange(0, j));
        lemma_all_deps_prefix_len(t.drop_last(), j);
    } else {
        assert(t.subrange(0, j) =~= t.drop_last());
    }
}

/// For resolver output that is closed and ordered, every occurrence of a
/// requested module in the load order (and so in the copies and in the
/// configuration's module list) comes after an occurrence of each of its
/// dependencies.
pub proof fn lemma_load_order_dependencies_first(t: DepTreeView, i: int, d: int, q: int)
    requires
        deps_closed(t),
        0 <= i < t.len(),
        0 <= d < t[i].1.len(),
        0 <= q < load_order(t).len(),
        load_order(t)[q] == t[i].0,
    ensures
        exists|p: int| 0 <= p < q && load_order(t)[p] == t[i].1[d],
{
    let n = all_deps(t).len();
    if q < n {
        let (j, k) = lemma_all_deps_index(t, q);
        let off = all_deps(t.subrange(0, j)).len();
        assert(all_deps(t)[off + k] == t[j].1[k]);
        assert(load_order(t)[q] == all_deps(t)[q]);
        assert(t[j].1[k] == t[i].0);
        let dep = t[i].1[d];
        let here = t[j].1[k];
        assert(here == t[i].0 && dep == t[i].1[d]);
        assert(exists|k2: int| 0 <= k2 < k && t[j].1[k2] == t[i].1[d]);
        let k2 = choose|k2: int| 0 <= k2 < k && t[j].1[k2] == t[i].1[d];
        assert(all_deps(t)[off + k2] == t[j].1[k2]);
        assert(load_order(t)[off + k2] == t[i].1[d]);
    } else {
        lemma_dep_listed(t, i, d);
        let p = choose|p: int| 0 <= p < all_deps(t).len() && all_deps(t)[p] == t[i].1[d];
        assert(load_order(t)[p] == t[i].1[d]);
    }
}

} // verus!
