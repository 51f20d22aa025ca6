//! The control groups of a container: which limits are written where,
//! and the life of a group from its creation to its removal.
//!
//! The directories and files are the caller's to make and to write.

use crate::model;
use crate::model::{Container, ContainerId, Pid};
use crate::text::{concat3, decimal, decimal_string};
use vstd::prelude::*;
use vstd::string::*;

verus! {

/// A controller of the kernel's control groups.
#[derive(Clone, Copy, Debug, PartialEq, Eq, Structural)]
pub enum Controller {
    Memory,
    Cpu,
}

/// One value to write into a group: the controller, the file in the
/// group's directory, and the file's content.
#[derive(Debug, PartialEq, Eq)]
pub struct Setting {
    pub controller: Controller,
    pub file: String,
    pub value: String,
}

pub struct SettingView {
    pub controller: Controller,
    pub file: Seq<char>,
    pub value: Seq<char>,
}

impl View for Setting {
    type V = SettingView;

    open spec fn view(&self) -> SettingView {
        SettingView { controller: self.controller, file: self.file@, value: self.value@ }
    }
}

impl DeepView for Setting {
    type V = SettingView;

    open spec fn deep_view(&self) -> SettingView {
        self@
    }
}

/// What is written for the limits of a manifest: the memory limit in
/// bytes, then the CPU shares, each in decimal notation and only if the
/// manifest has it.
pub open spec fn written(limits: model::CGroups) -> Seq<SettingView> {
    (match limits.memory {
        Some(limit) => seq![
            SettingView {
                controller: Controller::Memory,
                file: "memory.limit_in_bytes"@,
                value: decimal(limit as nat),
            },
        ],
        None => Seq::empty(),
    }) + (match limits.cpu {
        Some(shares) => seq![
            SettingView {
                controller: Controller::Cpu,
                file: "cpu.shares"@,
                value: decimal(shares as nat),
            },
        ],
        None => Seq::empty(),
    })
}

/// The values to write into a container's groups for these limits.
pub fn settings(limits: &model::CGroups) -> (r: Vec<Setting>)
    ensures
        r.deep_view() == written(*limits),
{
    let mut r: Vec<Setting> = Vec::new();
    if let Some(limit) = limits.memory {
        r.push(
            Setting {
                controller: Controller::Memory,
                file: String::from_str("memory.limit_in_bytes"),
                value: decimal_string(limit),
            },
        );
    }
    if let Some(shares) = limits.cpu {
        r.push(
            Setting {
                controller: Controller::Cpu,
                file: String::from_str("cpu.shares"),
                value: decimal_string(shares as u64),
            },
        );
    }
    assert(r.deep_view() =~= written(*limits));
    r
}

/// The directory of a container's group below a controller's mount
/// point: the configured part of the path, a slash, and the container's
/// name.
pub open spec fn group_path(hierarchy: Seq<char>, container: ContainerId) -> Seq<char> {
    hierarchy + seq!['/'] + container.name
}

/// The directory of a container's group below a controller's mount
/// point.
pub fn directory(hierarchy: &str, container: &Container) -> (path: String)
    ensures
        path@ == group_path(hierarchy@, container@),
{
    proof {
        reveal_strlit("/");
    }
    let path = concat3(hierarchy, "/", container.name.as_str());
    assert(path@ =~= group_path(hierarchy@, container@));
    path
}

/// The groups of one container.
#[derive(Debug, PartialEq, Eq)]
pub enum CGroups {
    /// The groups exist, with these processes in them.
    Created { pids: Vec<Pid> },
    /// The groups are removed.
    Destroyed,
}

impl CGroups {
    /// New groups, without a process.
    pub fn new() -> (groups: CGroups)
        ensures
            groups matches CGroups::Created { pids } && pids@ == Seq::<Pid>::empty(),
    {
        CGroups::Created { pids: Vec::new() }
    }

    /// Puts a process into the groups, which must exist.
    pub fn assign(&mut self, pid: Pid)
        requires
            *old(self) is Created,
        ensures
            *final(self) matches CGroups::Created { pids } && pids@ == old(self)->pids@.push(pid),
    {
        match self {
            CGroups::Created { pids } => {
                pids.push(pid);
            },
            CGroups::Destroyed => {},
        }
    }

    /// Removes the groups, whether or not their processes have ended.
    /// The result says whether there was anything to remove.
    pub fn destroy(&mut self) -> (existed: bool)
        ensures
            *final(self) == CGroups::Destroyed,
            existed == (*old(self) is Created),
    {
        let existed = match self {
            CGroups::Created { pids } => true,
            CGroups::Destroyed => false,
        };
        *self = CGroups::Destroyed;
        existed
    }
}

} // verus!
