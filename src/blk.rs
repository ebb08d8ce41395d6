//! Block-device table: which partitions exist, and lookups by UUID, label
//! or device path.
use vstd::prelude::*;
use crate::text::{blank_ws, blank_whitespace, is_prefix, split_on, views, str_eq, starts_with, split_char, join2};

verus! {

/// What is known of one partition.
pub struct BlkDevView {
    pub path: Seq<char>,
    pub uuid: Seq<char>,
    pub label: Seq<char>,
    pub fstype: Seq<char>,
}

/// Block device metadata: its path, UUID, label and filesystem type.
#[derive(Clone)]
pub struct BlkDev {
    path: String,
    uuid: String,
    label: String,
    fstype: String,
}

impl View for BlkDev {
    type V = BlkDevView;

    closed spec fn view(&self) -> BlkDevView {
        BlkDevView { path: self.path@, uuid: self.uuid@, label: self.label@, fstype: self.fstype@ }
    }
}

pub open spec fn dev_views(s: Seq<BlkDev>) -> Seq<BlkDevView> {
    s.map_values(|d: BlkDev| d@)
}

/// The identifier by which a configuration names a device, in the order
/// the boot sequencer resolves selectors: its UUID, else its path, else its
/// label, else `/dev/null`.
pub open spec fn mount_criterion(d: BlkDevView) -> Seq<char> {
    if d.uuid.len() > 0 {
        d.uuid
    } else if d.path.len() > 0 {
        d.path
    } else if d.label.len() > 0 {
        d.label
    } else {
        "/dev/null"@
    }
}

/// `i` is the first position of `s` whose entry satisfies `f`.
pub open spec fn is_first(s: Seq<BlkDevView>, i: int, f: spec_fn(BlkDevView) -> bool) -> bool {
    &&& 0 <= i < s.len()
    &&& f(s[i])
    &&& forall|j: int| 0 <= j < i ==> !f(#[trigger] s[j])
}

/// The first entry of `s` that satisfies `f`, if any.
pub open spec fn first_dev(s: Seq<BlkDevView>, f: spec_fn(BlkDevView) -> bool) -> Option<BlkDevView> {
    if exists|i: int| is_first(s, i, f) {
        Some(s[choose|i: int| is_first(s, i, f)])
    } else {
        None
    }
}

pub open spec fn has_uuid(id: Seq<char>) -> spec_fn(BlkDevView) -> bool {
    |d: BlkDevView| d.uuid == id
}

pub open spec fn has_label(lbl: Seq<char>) -> spec_fn(BlkDevView) -> bool {
    |d: BlkDevView| d.label == lbl
}

pub open spec fn has_path(p: Seq<char>) -> spec_fn(BlkDevView) -> bool {
    |d: BlkDevView| d.path == p
}

pub open spec fn opt_dev_view(r: Option<&BlkDev>) -> Option<BlkDevView> {
    match r {
        Some(d) => Some(d@),
        None => None,
    }
}

/// `name` is a partition of the disk `dev`: it extends the disk's name.
pub open spec fn is_partition(name: Seq<char>, dev: Seq<char>) -> bool {
    is_prefix(dev, name) && name != dev
}

/// The entries of the statistics list that are partitions of `dev`, in order.
pub open spec fn partitions_of(dev: Seq<char>, stats: Seq<Seq<char>>) -> Seq<Seq<char>> {
    stats.filter(|n: Seq<char>| is_partition(n, dev))
}

/// The non-empty whitespace-separated fields of a line.
pub open spec fn fields(line: Seq<char>) -> Seq<Seq<char>> {
    split_on(blank_ws(line), ' ').filter(|p: Seq<char>| p.len() > 0)
}

/// The device name of each line of the kernel's disk statistics: its third
/// field, for lines that have more than two.
pub open spec fn stat_names(lines: Seq<Seq<char>>) -> Seq<Seq<char>>
    decreases lines.len(),
{
    if lines.len() == 0 {
        Seq::empty()
    } else {
        let rest = stat_names(lines.drop_last());
        let f = fields(lines.last());
        if f.len() > 2 {
            rest.push(f[2])
        } else {
            rest
        }
    }
}

impl BlkDev {
    pub fn new(path: String, uuid: String, label: String, fstype: String) -> (r: BlkDev)
        ensures
            r@ == (BlkDevView { path: path@, uuid: uuid@, label: label@, fstype: fstype@ }),
    {
        BlkDev { path, uuid, label, fstype }
    }

    pub fn get_path(&self) -> (r: &str)
        ensures
            r@ == self@.path,
    {
        self.path.as_str()
    }

    pub fn get_uuid(&self) -> (r: &str)
        ensures
            r@ == self@.uuid,
    {
        self.uuid.as_str()
    }

    pub fn get_fstype(&self) -> (r: &str)
        ensures
            r@ == self@.fstype,
    {
        self.fstype.as_str()
    }

    pub fn get_label(&self) -> (r: &str)
        ensures
            r@ == self@.label,
    {
        self.label.as_str()
    }

    /// Falls back one after another: UUID, path, label.
    pub fn get_mount_criterion(&self) -> (r: &str)
        ensures
            r@ == mount_criterion(self@),
    {
        if self.uuid.unicode_len() > 0 {
            self.uuid.as_str()
        } else if self.path.unicode_len() > 0 {
            self.path.as_str()
        } else if self.label.unicode_len() > 0 {
            self.label.as_str()
        } else {
            "/dev/null"
        }
    }
}

/// Block device manager: the partitions found by one probe pass.
#[derive(Clone)]
pub struct BlkInfo {
    devices: Vec<BlkDev>,
}

impl View for BlkInfo {
    type V = Seq<BlkDevView>;

    closed spec fn view(&self) -> Seq<BlkDevView> {
        dev_views(self.devices@)
    }
}

pub proof fn lemma_first_unique(s: Seq<BlkDevView>, i: int, k: int, f: spec_fn(BlkDevView) -> bool)
    requires
        is_first(s, i, f),
        is_first(s, k, f),
    ensures
        i == k,
{
    if i < k {
        assert(!f(s[i]));
    } else if k < i {
        assert(!f(s[k]));
    }
}

impl BlkInfo {
    pub fn new() -> (r: BlkInfo)
        ensures
            r@ == Seq::<BlkDevView>::empty(),
    {
        let r = BlkInfo { devices: Vec::new() };
        assert(r@ =~= Seq::<BlkDevView>::empty());
        r
    }

    /// Appends one discovered partition.
    pub fn add_device(&mut self, dev: BlkDev)
        ensures
            final(self)@ == old(self)@.push(dev@),
    {
        let ghost d = dev@;
        self.devices.push(dev);
        assert(self@ =~= old(self)@.push(d));
    }

    /// Return all known block devices.
    pub fn get_devices(&self) -> (r: &Vec<BlkDev>)
        ensures
            dev_views(r@) == self@,
    {
        &self.devices
    }

    /// Index of the first device with the given field value; `which` picks
    /// the field: 0 the UUID, 1 the label, otherwise the path.
    fn find(&self, key: &str, which: u8) -> (r: Option<usize>)
        ensures
            ({
                let f = if which == 0 {
                    has_uuid(key@)
                } else if which == 1 {
                    has_label(key@)
                } else {
                    has_path(key@)
                };
                match r {
                    Some(i) => is_first(self@, i as int, f),
                    None => forall|j: int| 0 <= j < self@.len() ==> !f(#[trigger] self@[j]),
                }
            }),
    {
        let ghost f = if which == 0 {
            has_uuid(key@)
        } else if which == 1 {
            has_label(key@)
        } else {
            has_path(key@)
        };
        let mut i: usize = 0;
        while i < self.devices.len()
            invariant
                i <= self.devices@.len(),
                self@.len() == self.devices@.len(),
                f == (if which == 0 {
                    has_uuid(key@)
                } else if which == 1 {
                    has_label(key@)
                } else {
                    has_path(key@)
                }),
                forall|j: int| 0 <= j < i ==> !f(#[trigger] self@[j]),
            decreases self.devices@.len() - i,
        {
            let d = &self.devices[i];
            let field = if which == 0 {
                d.uuid.as_str()
            } else if which == 1 {
                d.label.as_str()
            } else {
                d.path.as_str()
            };
            assert(self@[i as int] == d@);
            if str_eq(field, key) {
                return Some(i);
            }
            i = i + 1;
        }
        None
    }

    fn lookup(&self, key: &str, which: u8) -> (r: Option<&BlkDev>)
        ensures
            opt_dev_view(r) == first_dev(
                self@,
                if which == 0 {
                    has_uuid(key@)
                } else if which == 1 {
                    has_label(key@)
                } else {
                    has_path(key@)
                },
            ),
    {
        let ghost f = if which == 0 {
            has_uuid(key@)
        } else if which == 1 {
            has_label(key@)
        } else {
            has_path(key@)
        };
        match self.find(key, which) {
            Some(i) => {
                proof {
                    let k = choose|k: int| is_first(self@, k, f);
                    lemma_first_unique(self@, i as int, k, f);
                }
                assert(self@[i as int] == self.devices@[i as int]@);
                Some(&self.devices[i])
            },
            None => {
                assert(!exists|k: int| is_first(self@, k, f));
                None
            },
        }
    }

    /// Resolve device by UUID.
    pub fn by_uuid(&self, id: &str) -> (r: Option<&BlkDev>)
        ensures
            opt_dev_view(r) == first_dev(self@, has_uuid(id@)),
    {
        self.lookup(id, 0)
    }

    /// Resolve device by label.
    pub fn by_label(&self, lbl: &str) -> (r: Option<&BlkDev>)
        ensures
            opt_dev_view(r) == first_dev(self@, has_label(lbl@)),
    {
        self.lookup(lbl, 1)
    }

    /// Resolve device by its `/dev/<device>` path.
    pub fn by_path(&self, p: &str) -> (r: Option<&BlkDev>)
        ensures
            opt_dev_view(r) == first_dev(self@, has_path(p@)),
    {
        self.lookup(p, 2)
    }

    /// The names in the statistics list that are partitions of the disk
    /// `dev`; the disk itself is left out.
    pub fn load_blk_device(dev: &str, stats: &Vec<String>) -> (r: Vec<String>)
        ensures
            views(r@) == partitions_of(dev@, views(stats@)),
    {
        let mut out: Vec<String> = Vec::new();
        let mut i: usize = 0;
        assert(views(stats@).subrange(0, 0) =~= Seq::<Seq<char>>::empty());
        reveal(Seq::filter);
        while i < stats.len()
            invariant
                i <= stats@.len(),
                views(out@) == partitions_of(dev@, views(stats@).subrange(0, i as int)),
            decreases stats@.len() - i,
        {
            let name = &stats[i];
            let ghost prefix = views(stats@).subrange(0, i as int);
            assert(views(stats@).subrange(0, i + 1).drop_last() =~= prefix);
            assert(views(stats@).subrange(0, i + 1).last() == name@);
            if starts_with(name.as_str(), dev) && !str_eq(name.as_str(), dev) {
                out.push(name.clone());
                assert(views(out@) =~= partitions_of(dev@, prefix).push(name@));
            } else {
                assert(!is_partition(name@, dev@));
            }
            reveal(Seq::filter);
            assert(partitions_of(dev@, views(stats@).subrange(0, i + 1)) == if is_partition(name@, dev@) {
                partitions_of(dev@, prefix).push(name@)
            } else {
                partitions_of(dev@, prefix)
            });
            i = i + 1;
        }
        assert(views(stats@).subrange(0, stats@.len() as int) =~= views(stats@));
        out
    }

    /// The device names listed in the kernel's per-device I/O statistics.
    pub fn load_dev_stats(text: &str) -> (r: Vec<String>)
        ensures
            views(r@) == stat_names(split_on(text@, '\n')),
    {
        let lines = split_char(text, '\n');
        let mut out: Vec<String> = Vec::new();
        let mut i: usize = 0;
        assert(views(lines@).subrange(0, 0) =~= Seq::<Seq<char>>::empty());
        while i < lines.len()
            invariant
                i <= lines@.len(),
                views(out@) == stat_names(views(lines@).subrange(0, i as int)),
            decreases lines@.len() - i,
        {
            let ghost prefix = views(lines@).subrange(0, i as int);
            assert(views(lines@).subrange(0, i + 1).drop_last() =~= prefix);
            let line = &lines[i];
            let f = line_fields(line.as_str());
            assert(views(lines@).subrange(0, i + 1).last() == line@);
            if f.len() > 2 {
                assert(f@[2]@ == fields(line@)[2]);
                out.push(f[2].clone());
                assert(views(out@) =~= stat_names(prefix).push(fields(line@)[2]));
            }
            i = i + 1;
        }
        assert(views(lines@).subrange(0, lines@.len() as int) =~= views(lines@));
        out
    }
}

/// The non-empty whitespace-separated fields of `line`.
pub fn line_fields(line: &str) -> (r: Vec<String>)
    ensures
        views(r@) == fields(line@),
{
    let blanked = blank_whitespace(line);
    let parts = split_char(blanked.as_str(), ' ');
    let ghost all = views(parts@);
    let mut out: Vec<String> = Vec::new();
    let mut i: usize = 0;
    assert(all.subrange(0, 0) =~= Seq::<Seq<char>>::empty());
    reveal(Seq::filter);
    while i < parts.len()
        invariant
            i <= parts@.len(),
            all == views(parts@),
            views(out@) == all.subrange(0, i as int).filter(|p: Seq<char>| p.len() > 0),
        decreases parts@.len() - i,
    {
        assert(all.subrange(0, i + 1).drop_last() =~= all.subrange(0, i as int));
        assert(all.subrange(0, i + 1).last() == parts@[i as int]@);
        if parts[i].unicode_len() > 0 {
            out.push(parts[i].clone());
            assert(views(out@) =~= all.subrange(0, i as int).filter(|p: Seq<char>| p.len() > 0).push(
                parts@[i as int]@,
            ));
        }
        reveal(Seq::filter);
        assert(all.subrange(0, i + 1).filter(|p: Seq<char>| p.len() > 0) == if parts@[i as int]@.len() > 0 {
            all.subrange(0, i as int).filter(|p: Seq<char>| p.len() > 0).push(parts@[i as int]@)
        } else {
            all.subrange(0, i as int).filter(|p: Seq<char>| p.len() > 0)
        });
        i = i + 1;
    }
    assert(all.subrange(0, parts@.len() as int) =~= all);
    out
}

/// The device node of a partition name: `/dev/<name>`.
pub fn device_path(name: &str) -> (r: String)
    ensures
        r@ == "/dev/"@ + name@,
{
    join2("/dev/", name)
}

/// Probing a disk lists its partitions only, never the disk itself.
pub proof fn lemma_disk_not_listed(dev: Seq<char>, stats: Seq<Seq<char>>)
    ensures
        !partitions_of(dev, stats).contains(dev),
        forall|n: Seq<char>| #[trigger] partitions_of(dev, stats).contains(n) ==> stats.contains(n) && is_prefix(dev, n),
{
    let pred = |n: Seq<char>| is_partition(n, dev);
    broadcast use vstd::seq_lib::group_filter_ensures;
    assert forall|n: Seq<char>| #[trigger] partitions_of(dev, stats).contains(n) implies stats.contains(n)
        && is_partition(n, dev) by {
        stats.lemma_filter_contains_rev(pred, n);
    }
}

} // verus!
