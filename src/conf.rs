//! Boot configuration: modules to load, disks to mount, the init program,
//! the sysroot and the log verbosity.
use vstd::prelude::*;
use crate::text::{split_on, views, split_char};
use indexmap::IndexMap;

verus! {

#[verifier::external_type_specification]
#[verifier::external_body]
#[verifier::reject_recursive_types(K)]
#[verifier::reject_recursive_types(V)]
#[verifier::reject_recursive_types(S)]
pub struct ExIndexMap<K, V, S>(IndexMap<K, V, S>);

/// The entries of a disk table, device selector and option string, in
/// insertion order.
pub uninterp spec fn disk_entries(m: IndexMap<String, String>) -> Seq<(Seq<char>, Seq<char>)>;

/// Relies on `IndexMap::len`: the number of entries.
#[verifier::external_body]
fn table_len(m: &IndexMap<String, String>) -> (r: usize)
    ensures
        r == disk_entries(*m).len(),
{
    m.len()
}

/// Relies on `IndexMap::get_index`: the entry at a position of the
/// insertion order, if there is one.
#[verifier::external_body]
fn table_entry(m: &IndexMap<String, String>, i: usize) -> (r: Option<(String, String)>)
    ensures
        i < disk_entries(*m).len() ==> r.is_some(),
        i < disk_entries(*m).len() ==> r.unwrap().0@ == disk_entries(*m)[i as int].0,
        i < disk_entries(*m).len() ==> r.unwrap().1@ == disk_entries(*m)[i as int].1,
{
    m.get_index(i).map(|(k, v)| (k.clone(), v.clone()))
}

/// One disk as the configuration describes it.
pub struct DiskView {
    pub device: Seq<char>,
    pub fstype: Seq<char>,
    pub mountpoint: Seq<char>,
    pub mode: Seq<char>,
}

/// Disk description.
pub struct MhConfDisk {
    device: String,
    fstype: String,
    path: String,
    mode: String,
}

impl View for MhConfDisk {
    type V = DiskView;

    closed spec fn view(&self) -> DiskView {
        DiskView { device: self.device@, fstype: self.fstype@, mountpoint: self.path@, mode: self.mode@ }
    }
}

pub open spec fn disk_views(s: Seq<MhConfDisk>) -> Seq<DiskView> {
    s.map_values(|d: MhConfDisk| d@)
}

/// How much the boot sequencer reports.
#[derive(PartialEq, Eq, Structural, Clone, Copy, Debug)]
pub enum LogLevel {
    Off,
    Info,
    Debug,
}

/// Why a configuration could not be used.
#[derive(Debug)]
pub enum ConfError {
    /// A disk option string that is not two or three comma-separated fields.
    InvalidDiskOptions(String),
}

/// The fields of a disk option string `fstype,mountpoint[,mode]`; a
/// missing mode is `rw`.
pub open spec fn disk_opts(opts: Seq<char>) -> Option<(Seq<char>, Seq<char>, Seq<char>)> {
    let t = split_on(opts, ',');
    if t.len() == 2 {
        Some((t[0], t[1], "rw"@))
    } else if t.len() == 3 {
        Some((t[0], t[1], t[2]))
    } else {
        None
    }
}

/// The disk that the configuration entry `(device, opts)` describes.
pub open spec fn disk_of(device: Seq<char>, opts: Seq<char>) -> DiskView {
    let o = disk_opts(opts).unwrap();
    DiskView { device, fstype: o.0, mountpoint: o.1, mode: o.2 }
}

/// What a configuration holds.
pub struct ConfigView {
    pub modules: Seq<Seq<char>>,
    pub disks: Seq<(Seq<char>, Seq<char>)>,
    pub init: Option<Seq<char>>,
    pub sysroot: Option<Seq<char>>,
    pub log: Option<Seq<char>>,
}

pub open spec fn opt_view(o: Option<String>) -> Option<Seq<char>> {
    match o {
        Some(s) => Some(s@),
        None => None,
    }
}

/// The init program: the configured one, else `/sysroot`.
pub open spec fn init_path(c: ConfigView) -> Seq<char> {
    match c.init {
        Some(i) => i,
        None => "/sysroot"@,
    }
}

/// The sysroot: the configured one, else `/sysroot`.
pub open spec fn sysroot_path(c: ConfigView) -> Seq<char> {
    match c.sysroot {
        Some(s) => s,
        None => "/sysroot"@,
    }
}

/// `debug` and `quiet` select their levels; anything else, or nothing, is `Info`.
pub open spec fn log_level(c: ConfigView) -> LogLevel {
    match c.log {
        Some(l) => if l == "debug"@ {
            LogLevel::Debug
        } else if l == "quiet"@ {
            LogLevel::Off
        } else {
            LogLevel::Info
        },
        None => LogLevel::Info,
    }
}

/// Every disk entry of the configuration has well-formed options.
pub open spec fn disks_valid(c: ConfigView) -> bool {
    forall|i: int| 0 <= i < c.disks.len() ==> (#[trigger] disk_opts(c.disks[i].1)).is_some()
}

/// Main configuration.
pub struct MhConfig {
    modules: Vec<String>,
    disks: IndexMap<String, String>,
    init: Option<String>,
    sysroot: Option<String>,
    log: Option<String>,
}

impl View for MhConfig {
    type V = ConfigView;

    closed spec fn view(&self) -> ConfigView {
        ConfigView {
            modules: views(self.modules@),
            disks: disk_entries(self.disks),
            init: opt_view(self.init),
            sysroot: opt_view(self.sysroot),
            log: opt_view(self.log),
        }
    }
}

impl MhConfDisk {
    pub fn new(device: String, fstype: String, path: String, mode: String) -> (r: MhConfDisk)
        ensures
            r@ == (DiskView { device: device@, fstype: fstype@, mountpoint: path@, mode: mode@ }),
    {
        MhConfDisk { device, fstype, path, mode }
    }

    /// Return path to the disk storage device.
    pub fn get_device(&self) -> (r: &str)
        ensures
            r@ == self@.device,
    {
        self.device.as_str()
    }

    /// Return filesystem type.
    pub fn get_fstype(&self) -> (r: &str)
        ensures
            r@ == self@.fstype,
    {
        self.fstype.as_str()
    }

    /// Return the mountpoint as an owned path string.
    pub fn as_pathbuf(&self) -> (r: String)
        ensures
            r@ == self@.mountpoint,
    {
        self.path.clone()
    }

    /// Get raw mountpoint.
    pub fn get_mountpoint(&self) -> (r: &str)
        ensures
            r@ == self@.mountpoint,
    {
        self.path.as_str()
    }

    /// Get mounting mode.
    pub fn get_mode(&self) -> (r: &str)
        ensures
            r@ == self@.mode,
    {
        self.mode.as_str()
    }
}

/// Parse disk options `fstype,mountpoint[,mode]`.
pub fn get_disk_opts(opts: &str) -> (r: Result<(String, String, String), ConfError>)
    ensures
        match r {
            Ok(t) => disk_opts(opts@) == Some((t.0@, t.1@, t.2@)),
            Err(ConfError::InvalidDiskOptions(o)) => disk_opts(opts@).is_none() && o@ == opts@,
        },
{
    let t = split_char(opts, ',');
    assert(views(t@).len() == t@.len());
    if t.len() == 2 {
        assert(views(t@)[0] == t@[0]@ && views(t@)[1] == t@[1]@);
        Ok((t[0].clone(), t[1].clone(), String::from_str("rw")))
    } else if t.len() == 3 {
        assert(views(t@)[0] == t@[0]@ && views(t@)[1] == t@[1]@ && views(t@)[2] == t@[2]@);
        Ok((t[0].clone(), t[1].clone(), t[2].clone()))
    } else {
        Err(ConfError::InvalidDiskOptions(String::from_str(opts)))
    }
}

fn clone_opt(o: &Option<String>) -> (r: Option<String>)
    ensures
        opt_view(r) == opt_view(*o),
{
    match o {
        Some(s) => Some(s.clone()),
        None => None,
    }
}

impl MhConfig {
    pub fn new(
        modules: Vec<String>,
        disks: IndexMap<String, String>,
        init: Option<String>,
        sysroot: Option<String>,
        log: Option<String>,
    ) -> (r: MhConfig)
        ensures
            r@ == (ConfigView {
                modules: views(modules@),
                disks: disk_entries(disks),
                init: opt_view(init),
                sysroot: opt_view(sysroot),
                log: opt_view(log),
            }),
    {
        MhConfig { modules, disks, init, sysroot, log }
    }

    /// Takes the configuration apart: modules, disk table, init program,
    /// sysroot and log level, as given.
    pub fn into_parts(self) -> (r: (Vec<String>, IndexMap<String, String>, Option<String>, Option<String>, Option<
        String,
    >))
        ensures
            views(r.0@) == self@.modules,
            disk_entries(r.1) == self@.disks,
            opt_view(r.2) == self@.init,
            opt_view(r.3) == self@.sysroot,
            opt_view(r.4) == self@.log,
    {
        (self.modules, self.disks, self.init, self.sysroot, self.log)
    }

    /// Return list of modules.
    pub fn get_modules(&self) -> (r: &Vec<String>)
        ensures
            views(r@) == self@.modules,
    {
        &self.modules
    }

    /// Return the disk device descriptions, in the order of the configuration.
    pub fn get_disks(&self) -> (r: Result<Vec<MhConfDisk>, ConfError>)
        ensures
            r.is_ok() == disks_valid(self@),
            r matches Ok(v) ==> disk_views(v@) == self@.disks.map_values(
                |p: (Seq<char>, Seq<char>)| disk_of(p.0, p.1),
            ),
            r matches Err(ConfError::InvalidDiskOptions(o)) ==> exists|i: int|
                0 <= i < self@.disks.len() && disk_opts(#[trigger] self@.disks[i].1).is_none()
                    && o@ == self@.disks[i].1,
    {
        let mut d: Vec<MhConfDisk> = Vec::new();
        let n = table_len(&self.disks);
        let mut i: usize = 0;
        while i < n
            invariant
                i <= n,
                n == self@.disks.len(),
                forall|k: int| 0 <= k < i ==> (#[trigger] disk_opts(self@.disks[k].1)).is_some(),
                disk_views(d@) == self@.disks.subrange(0, i as int).map_values(
                    |p: (Seq<char>, Seq<char>)| disk_of(p.0, p.1),
                ),
            decreases n - i,
        {
            let (dev, opt) = match table_entry(&self.disks, i) {
                Some(e) => e,
                None => {
                    return Err(ConfError::InvalidDiskOptions(String::new()));
                },
            };
            assert(self@.disks[i as int] == (dev@, opt@));
            match get_disk_opts(opt.as_str()) {
                Ok((fstype, path, mode)) => {
                    let disk = MhConfDisk { device: dev, fstype, path, mode };
                    assert(disk@ == disk_of(dev@, opt@));
                    let ghost before = disk_views(d@);
                    d.push(disk);
                    assert(disk_views(d@) =~= before.push(disk_of(dev@, opt@)));
                    assert(self@.disks.subrange(0, i + 1) =~= self@.disks.subrange(0, i as int).push(
                        self@.disks[i as int],
                    ));
                    assert(disk_views(d@) =~= self@.disks.subrange(0, i + 1).map_values(
                        |p: (Seq<char>, Seq<char>)| disk_of(p.0, p.1),
                    ));
                },
                Err(e) => {
                    assert(disk_opts(self@.disks[i as int].1).is_none());
                    return Err(e);
                },
            }
            i = i + 1;
        }
        assert(self@.disks.subrange(0, i as int) =~= self@.disks);
        Ok(d)
    }

    /// Return path to the init app.
    pub fn get_init_path(&self) -> (r: String)
        ensures
            r@ == init_path(self@),
    {
        match &self.init {
            Some(i) => i.clone(),
            None => String::from_str("/sysroot"),
        }
    }

    /// Get log level.
    pub fn get_log_level(&self) -> (r: LogLevel)
        ensures
            r == log_level(self@),
    {
        match &self.log {
            Some(l) => {
                if crate::text::str_eq(l.as_str(), "debug") {
                    LogLevel::Debug
                } else if crate::text::str_eq(l.as_str(), "quiet") {
                    LogLevel::Off
                } else {
                    LogLevel::Info
                }
            },
            None => LogLevel::Info,
        }
    }

    /// The configured log verbosity word, if any.
    pub fn get_log_level_as_str(&self) -> (r: Option<String>)
        ensures
            opt_view(r) == self@.log,
    {
        clone_opt(&self.log)
    }

    /// Get a sysroot temp path.
    pub fn get_sysroot_path(&self) -> (r: String)
        ensures
            r@ == sysroot_path(self@),
    {
        match &self.sysroot {
            Some(s) => s.clone(),
            None => String::from_str("/sysroot"),
        }
    }
}

} // verus!
