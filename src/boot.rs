//! The boot sequencer's decisions, as a state machine: each stage names
//! the outside work to do next, and reporting that work done moves it one
//! stage forward. Running the work (mounts, module loads, exec) is the
//! caller's part.
use vstd::prelude::*;
use crate::blk::{BlkDevView, BlkInfo};
use crate::conf::{ConfError, DiskView, MhConfDisk, MhConfig, disk_views, disks_valid, disk_of, init_path, sysroot_path};
use crate::mounts::{MountView, SystemDir, mount_views, pseudo_mounts, rehomed, plan_spec, root_fstype_spec,
    uuid_flags, sorted_by_dest, sys_mounts, rehome_mounts, mount_plan, sort_by_destination, selector_flags};
use crate::text::views;

verus! {

/// Where the boot sequence stands; it only ever moves forward.
#[derive(PartialEq, Eq, Structural, Clone, Copy, Debug)]
pub enum BootStage {
    Start,
    ModulesLoaded,
    PseudoMounted,
    DevicesProbed,
    DisksResolved,
    DisksMounted,
    PseudoRehomed,
    RootPurged,
    RootSwitched,
    InitExecuted,
}

/// The stage that follows `s`; the last one is final.
pub open spec fn next_stage(s: BootStage) -> BootStage {
    match s {
        BootStage::Start => BootStage::ModulesLoaded,
        BootStage::ModulesLoaded => BootStage::PseudoMounted,
        BootStage::PseudoMounted => BootStage::DevicesProbed,
        BootStage::DevicesProbed => BootStage::DisksResolved,
        BootStage::DisksResolved => BootStage::DisksMounted,
        BootStage::DisksMounted => BootStage::PseudoRehomed,
        BootStage::PseudoRehomed => BootStage::RootPurged,
        BootStage::RootPurged => BootStage::RootSwitched,
        BootStage::RootSwitched => BootStage::InitExecuted,
        BootStage::InitExecuted => BootStage::InitExecuted,
    }
}

/// The outside work that leads out of the current stage.
#[derive(Debug)]
pub enum BootAction {
    /// Load each module, in order; failures are only reported.
    LoadModules(Vec<String>),
    /// Mount the pseudo-filesystems, in order.
    MountPseudo(Vec<SystemDir>),
    /// Probe the block devices and report them.
    ProbeDevices,
    /// Nothing outside: the sequencer resolves the disks itself.
    ResolveDisks,
    /// Mount the disks, in order.
    MountDisks(Vec<SystemDir>),
    /// Move each pseudo-filesystem from its source to its destination.
    MovePseudo(Vec<SystemDir>),
    /// Purge the in-memory root, sparing the given sysroot.
    PurgeRoot(String),
    /// Make the sysroot the root, with its filesystem type. The type is
    /// empty when no disk is configured at the root: the switch is still
    /// attempted, since a move mount does not read the type, and the caller
    /// reports the missing root disk; a partly booted system is preferred
    /// to a halted one.
    SwitchRoot(String, String),
    /// Replace this process with the init program.
    ExecInit(String),
    /// Nothing is left to do.
    Finished,
}

/// One step of the root switch.
#[derive(Debug)]
pub enum RootStep {
    /// Change the working directory.
    ChangeDir(String),
    /// Move the mount at the first path onto the second, with a type.
    MoveMount(String, String, String),
    /// Make the given directory the root.
    ChangeRoot(String),
}

/// The root switch, in order: enter the sysroot, move its mount onto `/`
/// (a move, so that descriptors open under it stay valid), then make the
/// current directory the root.
pub fn switch_root_steps(sysroot: &str, fstype: &str) -> (r: Vec<RootStep>)
    ensures
        r@.len() == 3,
        r@[0] matches RootStep::ChangeDir(d) && d@ == sysroot@,
        r@[1] matches RootStep::MoveMount(s, t, f) && s@ == sysroot@ && t@ == "/"@ && f@ == fstype@,
        r@[2] matches RootStep::ChangeRoot(d) && d@ == "."@,
{
    let mut r: Vec<RootStep> = Vec::new();
    r.push(RootStep::ChangeDir(String::from_str(sysroot)));
    r.push(RootStep::MoveMount(String::from_str(sysroot), String::from_str("/"), String::from_str(fstype)));
    r.push(RootStep::ChangeRoot(String::from_str(".")));
    r
}

/// What the caller reports after doing the work of an action.
pub enum BootEvent {
    /// The work was done (or attempted: failures are not fatal).
    Done,
    /// The probe found these partitions.
    Probed(BlkInfo),
}

/// What the sequencer holds.
pub struct BootView {
    pub stage: BootStage,
    pub modules: Seq<Seq<char>>,
    pub disks: Seq<DiskView>,
    pub sysroot: Seq<char>,
    pub init: Seq<char>,
    pub devices: Seq<BlkDevView>,
    pub root_fstype: Seq<char>,
    pub plan: Seq<MountView>,
}

/// The boot sequencer.
pub struct BootSequencer {
    stage: BootStage,
    modules: Vec<String>,
    disks: Vec<MhConfDisk>,
    sysroot: String,
    init: String,
    devices: BlkInfo,
    root_fstype: String,
    plan: Vec<SystemDir>,
}

impl View for BootSequencer {
    type V = BootView;

    closed spec fn view(&self) -> BootView {
        BootView {
            stage: self.stage,
            modules: views(self.modules@),
            disks: disk_views(self.disks@),
            sysroot: self.sysroot@,
            init: self.init@,
            devices: self.devices@,
            root_fstype: self.root_fstype@,
            plan: mount_views(self.plan@),
        }
    }
}

/// `a` is the work that leads out of the stage of `v`.
pub open spec fn action_spec(v: BootView, a: BootAction) -> bool {
    match v.stage {
        BootStage::Start => a matches BootAction::LoadModules(m) && views(m@) == v.modules,
        BootStage::ModulesLoaded => a matches BootAction::MountPseudo(m) && mount_views(m@) == pseudo_mounts(),
        BootStage::PseudoMounted => a matches BootAction::ProbeDevices,
        BootStage::DevicesProbed => a matches BootAction::ResolveDisks,
        BootStage::DisksResolved => a matches BootAction::MountDisks(m) && mount_views(m@) == v.plan,
        BootStage::DisksMounted => a matches BootAction::MovePseudo(m) && mount_views(m@) == rehomed(v.sysroot),
        BootStage::PseudoRehomed => a matches BootAction::PurgeRoot(s) && s@ == v.sysroot,
        BootStage::RootPurged => a matches BootAction::SwitchRoot(s, f) && s@ == v.sysroot && f@ == v.root_fstype,
        BootStage::RootSwitched => a matches BootAction::ExecInit(i) && i@ == v.init,
        BootStage::InitExecuted => a matches BootAction::Finished,
    }
}

/// The disk mounts are those of the plan for the probed devices, in an
/// order where a mountpoint follows every mountpoint that prefixes it.
pub open spec fn resolved(v: BootView) -> bool {
    &&& v.root_fstype == root_fstype_spec(v.disks)
    &&& v.plan.to_multiset() == plan_spec(v.disks, uuid_flags(v.disks), v.sysroot, v.devices).to_multiset()
    &&& sorted_by_dest(v.plan)
}

/// The effect of reporting `e` at the stage of `v`: the stage moves on, the
/// probe's table is kept, and the disks are resolved against it.
pub open spec fn advance_spec(v: BootView, e_probed: Option<Seq<BlkDevView>>, w: BootView) -> bool {
    &&& w.stage == next_stage(v.stage)
    &&& w.modules == v.modules && w.disks == v.disks && w.sysroot == v.sysroot && w.init == v.init
    &&& w.devices == if v.stage == BootStage::PseudoMounted {
        match e_probed {
            Some(d) => d,
            None => Seq::empty(),
        }
    } else {
        v.devices
    }
    &&& if v.stage == BootStage::DevicesProbed {
        resolved(w)
    } else {
        w.root_fstype == v.root_fstype && w.plan == v.plan
    }
}

pub open spec fn event_devices(e: BootEvent) -> Option<Seq<BlkDevView>> {
    match e {
        BootEvent::Probed(b) => Some(b@),
        BootEvent::Done => None,
    }
}

fn copy_strings(v: &Vec<String>) -> (r: Vec<String>)
    ensures
        views(r@) == views(v@),
{
    let mut r: Vec<String> = Vec::new();
    let mut i: usize = 0;
    while i < v.len()
        invariant
            i <= v@.len(),
            views(r@) == views(v@).subrange(0, i as int),
        decreases v@.len() - i,
    {
        let ghost before = views(r@);
        let s = v[i].clone();
        r.push(s);
        assert(views(r@) =~= before.push(views(v@)[i as int]));
        assert(views(v@).subrange(0, i + 1) =~= views(v@).subrange(0, i as int).push(views(v@)[i as int]));
        i = i + 1;
    }
    assert(views(v@).subrange(0, i as int) =~= views(v@));
    r
}

fn copy_mounts(v: &Vec<SystemDir>) -> (r: Vec<SystemDir>)
    ensures
        mount_views(r@) == mount_views(v@),
{
    let mut r: Vec<SystemDir> = Vec::new();
    let mut i: usize = 0;
    while i < v.len()
        invariant
            i <= v@.len(),
            mount_views(r@) == mount_views(v@).subrange(0, i as int),
        decreases v@.len() - i,
    {
        let ghost before = mount_views(r@);
        let m = SystemDir { fstype: v[i].fstype.clone(), dev: v[i].dev.clone(), dst: v[i].dst.clone() };
        r.push(m);
        assert(mount_views(r@) =~= before.push(mount_views(v@)[i as int]));
        assert(mount_views(v@).subrange(0, i + 1) =~= mount_views(v@).subrange(0, i as int).push(
            mount_views(v@)[i as int],
        ));
        i = i + 1;
    }
    assert(mount_views(v@).subrange(0, i as int) =~= mount_views(v@));
    r
}

impl BootSequencer {
    /// A sequencer at the start, for a configuration whose disks all parse;
    /// otherwise the configuration error, before anything is done.
    pub fn new(cfg: &MhConfig) -> (r: Result<BootSequencer, ConfError>)
        ensures
            r.is_ok() == disks_valid(cfg@),
            r matches Ok(s) ==> {
                &&& s@.stage == BootStage::Start
                &&& s@.modules == cfg@.modules
                &&& s@.disks == cfg@.disks.map_values(|p: (Seq<char>, Seq<char>)| disk_of(p.0, p.1))
                &&& s@.sysroot == sysroot_path(cfg@)
                &&& s@.init == init_path(cfg@)
                &&& s@.devices.len() == 0
                &&& s@.root_fstype.len() == 0
                &&& s@.plan.len() == 0
            },
    {
        let disks = cfg.get_disks()?;
        let plan: Vec<SystemDir> = Vec::new();
        assert(mount_views(plan@).len() == 0);
        Ok(
            BootSequencer {
                stage: BootStage::Start,
                modules: copy_strings(cfg.get_modules()),
                disks,
                sysroot: cfg.get_sysroot_path(),
                init: cfg.get_init_path(),
                devices: BlkInfo::new(),
                root_fstype: String::new(),
                plan,
            },
        )
    }

    pub fn stage(&self) -> (r: BootStage)
        ensures
            r == self@.stage,
    {
        self.stage
    }

    /// The outside work to do at the current stage.
    pub fn action(&self) -> (r: BootAction)
        ensures
            action_spec(self@, r),
    {
        match self.stage {
            BootStage::Start => BootAction::LoadModules(copy_strings(&self.modules)),
            BootStage::ModulesLoaded => BootAction::MountPseudo(sys_mounts()),
            BootStage::PseudoMounted => BootAction::ProbeDevices,
            BootStage::DevicesProbed => BootAction::ResolveDisks,
            BootStage::DisksResolved => BootAction::MountDisks(copy_mounts(&self.plan)),
            BootStage::DisksMounted => BootAction::MovePseudo(rehome_mounts(self.sysroot.as_str())),
            BootStage::PseudoRehomed => BootAction::PurgeRoot(self.sysroot.clone()),
            BootStage::RootPurged => BootAction::SwitchRoot(self.sysroot.clone(), self.root_fstype.clone()),
            BootStage::RootSwitched => BootAction::ExecInit(self.init.clone()),
            BootStage::InitExecuted => BootAction::Finished,
        }
    }

    /// Takes the report of the last action's work and moves one stage on.
    /// A probe that reported nothing leaves the device table empty.
    pub fn advance(&mut self, event: BootEvent)
        ensures
            advance_spec(old(self)@, event_devices(event), final(self)@),
    {
        match self.stage {
            BootStage::Start => {
                self.stage = BootStage::ModulesLoaded;
            },
            BootStage::ModulesLoaded => {
                self.stage = BootStage::PseudoMounted;
            },
            BootStage::PseudoMounted => {
                self.devices = match event {
                    BootEvent::Probed(b) => b,
                    BootEvent::Done => BlkInfo::new(),
                };
                self.stage = BootStage::DevicesProbed;
            },
            BootStage::DevicesProbed => {
                let flags = selector_flags(&self.disks);
                let (root_fstype, plan) = mount_plan(&self.disks, &flags, self.sysroot.as_str(), &self.devices);
                self.root_fstype = root_fstype;
                self.plan = sort_by_destination(plan);
                self.stage = BootStage::DisksResolved;
            },
            BootStage::DisksResolved => {
                self.stage = BootStage::DisksMounted;
            },
            BootStage::DisksMounted => {
                self.stage = BootStage::PseudoRehomed;
            },
            BootStage::PseudoRehomed => {
                self.stage = BootStage::RootPurged;
            },
            BootStage::RootPurged => {
                self.stage = BootStage::RootSwitched;
            },
            BootStage::RootSwitched => {
                self.stage = BootStage::InitExecuted;
            },
            BootStage::InitExecuted => {},
        }
    }
}

/// The stage reached after `n` steps from `s`.
pub open spec fn stage_after(s: BootStage, n: nat) -> BootStage
    decreases n,
{
    if n == 0 {
        s
    } else {
        stage_after(next_stage(s), (n - 1) as nat)
    }
}

/// From the start, nine steps pass through the root switch and reach the
/// exec of init, and the sequence stays there.
pub proof fn lemma_boot_reaches_init()
    ensures
        stage_after(BootStage::Start, 8) == BootStage::RootSwitched,
        stage_after(BootStage::Start, 9) == BootStage::InitExecuted,
        next_stage(BootStage::InitExecuted) == BootStage::InitExecuted,
{
    reveal_with_fuel(stage_after, 10);
}

} // verus!
