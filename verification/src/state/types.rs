//! What the engine keeps of containers and repositories, and what it
//! asks of the mount manager and the launcher.

use crate::model::{
    Container, ContainerId, Manifest, ManifestView, Notification, Pid, RepositoryId,
};
use vstd::prelude::*;
use vstd::string::*;

verus! {

/// The device that backs a mounted container.
#[derive(Debug, PartialEq, Eq)]
pub enum BlockDevice {
    /// A loop device, for a package that is not verified.
    Loopback(String),
    /// A device whose blocks are verified against the signed root hash.
    Verity(String),
}

pub enum BlockDeviceView {
    Loopback(Seq<char>),
    Verity(Seq<char>),
}

impl View for BlockDevice {
    type V = BlockDeviceView;

    open spec fn view(&self) -> BlockDeviceView {
        match self {
            BlockDevice::Loopback(path) => BlockDeviceView::Loopback(path@),
            BlockDevice::Verity(path) => BlockDeviceView::Verity(path@),
        }
    }
}

/// What the engine knows of a running container's process.
#[derive(Clone, Copy, Debug, PartialEq, Eq, Structural)]
pub struct ProcessContext {
    pub pid: Pid,
    /// The engine's clock when the process was started, in nanoseconds.
    pub started: u64,
    /// Whether a control group was made for the process.
    pub cgroups: bool,
}

/// A container whose file system is mounted, with its process if it runs.
#[derive(Debug, PartialEq, Eq)]
pub struct MountedContainer {
    pub container: Container,
    pub manifest: Manifest,
    /// The directory at which the container's file system is mounted.
    pub root: String,
    pub device: BlockDevice,
    pub process: Option<ProcessContext>,
}

pub struct MountedView {
    pub container: ContainerId,
    pub manifest: ManifestView,
    pub root: Seq<char>,
    pub device: BlockDeviceView,
    pub process: Option<ProcessContext>,
}

impl View for MountedContainer {
    type V = MountedView;

    open spec fn view(&self) -> MountedView {
        MountedView {
            container: self.container@,
            manifest: self.manifest@,
            root: self.root@,
            device: self.device@,
            process: self.process,
        }
    }
}

impl DeepView for MountedContainer {
    type V = MountedView;

    open spec fn deep_view(&self) -> MountedView {
        self@
    }
}

/// A labelled store of packages. With a key, its packages are verified.
#[derive(Debug, PartialEq, Eq)]
pub struct Repository {
    pub id: RepositoryId,
    pub key: Option<String>,
    pub packages: Vec<Manifest>,
}

pub struct RepositoryView {
    pub id: Seq<char>,
    pub key: Option<Seq<char>>,
    pub packages: Seq<ManifestView>,
}

impl View for Repository {
    type V = RepositoryView;

    open spec fn view(&self) -> RepositoryView {
        RepositoryView {
            id: self.id@,
            key: self.key.deep_view(),
            packages: self.packages.deep_view(),
        }
    }
}

impl DeepView for Repository {
    type V = RepositoryView;

    open spec fn deep_view(&self) -> RepositoryView {
        self@
    }
}

/// What is asked of the mount manager: mount the package of `container`,
/// kept in `repository`, at `root`, with a verified device if `verity`.
#[derive(Debug, PartialEq, Eq)]
pub struct MountRequest {
    pub container: Container,
    pub repository: RepositoryId,
    pub root: String,
    pub verity: bool,
}

pub struct MountRequestView {
    pub container: ContainerId,
    pub repository: Seq<char>,
    pub root: Seq<char>,
    pub verity: bool,
}

impl View for MountRequest {
    type V = MountRequestView;

    open spec fn view(&self) -> MountRequestView {
        MountRequestView {
            container: self.container@,
            repository: self.repository@,
            root: self.root@,
            verity: self.verity,
        }
    }
}

impl DeepView for MountRequest {
    type V = MountRequestView;

    open spec fn deep_view(&self) -> MountRequestView {
        self@
    }
}

/// What is asked of the mount manager: unmount `root`, and where
/// `verity` names a verified device, wait until it is gone.
#[derive(Debug, PartialEq, Eq)]
pub struct Umount {
    pub container: Container,
    pub root: String,
    pub verity: Option<String>,
}

pub struct UmountView {
    pub container: ContainerId,
    pub root: Seq<char>,
    pub verity: Option<Seq<char>>,
}

impl View for Umount {
    type V = UmountView;

    open spec fn view(&self) -> UmountView {
        UmountView {
            container: self.container@,
            root: self.root@,
            verity: self.verity.deep_view(),
        }
    }
}

impl DeepView for Umount {
    type V = UmountView;

    open spec fn deep_view(&self) -> UmountView {
        self@
    }
}

impl MountedView {
    /// What it takes to unmount this container.
    pub open spec fn teardown(self) -> UmountView {
        UmountView {
            container: self.container,
            root: self.root,
            verity: match self.device {
                BlockDeviceView::Loopback(_) => None,
                BlockDeviceView::Verity(device) => Some(device),
            },
        }
    }
}

impl MountedContainer {
    /// What it takes to unmount this container.
    pub fn teardown(&self) -> (u: Umount)
        ensures
            u@ == self@.teardown(),
    {
        Umount {
            container: self.container.clone(),
            root: self.root.clone(),
            verity: match &self.device {
                BlockDevice::Loopback(_) => None,
                BlockDevice::Verity(device) => Some(device.clone()),
            },
        }
    }
}

/// What is asked of the launcher: end the process of `container`,
/// killing it if it has not ended after `timeout` seconds, release what
/// belongs to it, and then publish `notification`.
#[derive(Debug, PartialEq, Eq)]
pub struct Termination {
    pub container: Container,
    pub process: ProcessContext,
    pub timeout: u64,
    pub notification: Notification,
}

/// The seconds that a container is given to end when the engine shuts
/// down or the container is out of memory.
pub const GRACE_PERIOD: u64 = 5;

impl MountedView {
    /// How this container's process is ended, if it has one.
    pub open spec fn ends(self, t: Termination, timeout: u64) -> bool {
        &&& t.container@ == self.container
        &&& Some(t.process) == self.process
        &&& t.timeout == timeout
        &&& t.notification matches Notification::Stopped(c) && c@ == self.container
    }
}

/// What came of a request to the mount manager: the device from which
/// the container was mounted, or a description of the failure.
pub type MountOutcome = (MountRequest, Result<String, String>);

/// One step of releasing what belongs to a process.
#[derive(Clone, Copy, Debug, PartialEq, Eq, Structural)]
pub enum Teardown {
    /// End the process, killing it after this many seconds.
    Stop(Pid, u64),
    /// Release the launcher's handle of the process.
    DestroyProcess(Pid),
    /// Detach the debug tools.
    DestroyDebug,
    /// Remove the control group.
    DestroyCgroups,
}

impl ProcessContext {
    /// The steps that end a running process and release what belongs to
    /// it, in their order: the control group goes last, if there is one.
    pub fn terminate(&self, timeout: u64) -> (steps: Vec<Teardown>)
        ensures
            steps@ == seq![
                Teardown::Stop(self.pid, timeout),
                Teardown::DestroyProcess(self.pid),
                Teardown::DestroyDebug,
            ] + if self.cgroups {
                seq![Teardown::DestroyCgroups]
            } else {
                Seq::empty()
            },
    {
        let mut steps: Vec<Teardown> = Vec::new();
        steps.push(Teardown::Stop(self.pid, timeout));
        steps.push(Teardown::DestroyProcess(self.pid));
        steps.push(Teardown::DestroyDebug);
        if self.cgroups {
            steps.push(Teardown::DestroyCgroups);
        }
        assert(steps@ =~= seq![
            Teardown::Stop(self.pid, timeout),
            Teardown::DestroyProcess(self.pid),
            Teardown::DestroyDebug,
        ] + if self.cgroups {
            seq![Teardown::DestroyCgroups]
        } else {
            Seq::empty()
        });
        steps
    }

    /// The steps that release what belongs to a process that has ended,
    /// in their order.
    pub fn destroy(&self) -> (steps: Vec<Teardown>)
        ensures
            steps@ == seq![Teardown::DestroyProcess(self.pid), Teardown::DestroyDebug]
                + if self.cgroups {
                seq![Teardown::DestroyCgroups]
            } else {
                Seq::empty()
            },
    {
        let mut steps: Vec<Teardown> = Vec::new();
        steps.push(Teardown::DestroyProcess(self.pid));
        steps.push(Teardown::DestroyDebug);
        if self.cgroups {
            steps.push(Teardown::DestroyCgroups);
        }
        assert(steps@ =~= seq![Teardown::DestroyProcess(self.pid), Teardown::DestroyDebug]
            + if self.cgroups {
            seq![Teardown::DestroyCgroups]
        } else {
            Seq::empty()
        });
        steps
    }
}

} // verus!
