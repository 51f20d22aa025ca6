//! The mount manager's plan: the steps that turn a package into a
//! mounted file system, and the steps that take a mount apart, wholly
//! or as far as it got.
//!
//! The devices and the mounts themselves are the caller's work.

use crate::model::ContainerId;
use crate::state::{MountRequest, MountRequestView, Umount, UmountView};
use crate::text::concat3;
use vstd::prelude::*;
use vstd::string::*;

verus! {

/// What a package says of its integrity: the root of the hash tree over
/// its file system image.
#[derive(Debug, PartialEq, Eq)]
pub struct Verity {
    pub root_hash: String,
}

/// Where the file system image lies in the package file.
#[derive(Debug, PartialEq, Eq)]
pub struct Image {
    pub offset: u64,
    pub size: u64,
    pub verity: Option<Verity>,
}

/// One step on the way to a mounted container.
#[derive(Debug, PartialEq, Eq)]
pub enum Step {
    /// Attach this part of the package file to a free loop device.
    AttachLoop { offset: u64, size: u64 },
    /// Map the loop device to a device of this name that verifies its
    /// blocks against this root hash.
    CreateVerity { name: String, root_hash: String },
    /// Mount the device at this directory, for reading only.
    Mount { target: String },
}

pub enum StepView {
    AttachLoop { offset: u64, size: u64 },
    CreateVerity { name: Seq<char>, root_hash: Seq<char> },
    Mount { target: Seq<char> },
}

impl View for Step {
    type V = StepView;

    open spec fn view(&self) -> StepView {
        match self {
            Step::AttachLoop { offset, size } => StepView::AttachLoop {
                offset: *offset,
                size: *size,
            },
            Step::CreateVerity { name, root_hash } => StepView::CreateVerity {
                name: name@,
                root_hash: root_hash@,
            },
            Step::Mount { target } => StepView::Mount { target: target@ },
        }
    }
}

impl DeepView for Step {
    type V = StepView;

    open spec fn deep_view(&self) -> StepView {
        self@
    }
}

/// One step of taking a mount apart.
#[derive(Debug, PartialEq, Eq)]
pub enum Undo {
    /// Unmount this directory. One that is not mounted is left alone.
    Umount { target: String },
    /// Remove the verifying device of this name, and wait until it is
    /// gone.
    RemoveVerity { name: String },
    /// Detach the loop device.
    DetachLoop,
}

pub enum UndoView {
    Umount { target: Seq<char> },
    RemoveVerity { name: Seq<char> },
    DetachLoop,
}

impl View for Undo {
    type V = UndoView;

    open spec fn view(&self) -> UndoView {
        match self {
            Undo::Umount { target } => UndoView::Umount { target: target@ },
            Undo::RemoveVerity { name } => UndoView::RemoveVerity { name: name@ },
            Undo::DetachLoop => UndoView::DetachLoop,
        }
    }
}

impl DeepView for Undo {
    type V = UndoView;

    open spec fn deep_view(&self) -> UndoView {
        self@
    }
}

impl StepView {
    /// What takes this step back.
    pub open spec fn undo(self) -> UndoView {
        match self {
            StepView::AttachLoop { offset, size } => UndoView::DetachLoop,
            StepView::CreateVerity { name, root_hash } => UndoView::RemoveVerity { name },
            StepView::Mount { target } => UndoView::Umount { target },
        }
    }
}

/// The name of the device that verifies the blocks of a container: the
/// container's name, an underscore, and its version.
pub open spec fn verity_name(container: ContainerId) -> Seq<char> {
    container.name + seq!['_'] + container.version.text()
}

/// Whether the mount is to be verified: the repository has a key and the
/// package has a hash tree.
pub open spec fn verifies(request: MountRequestView, verity: Option<Seq<char>>) -> bool {
    request.verity && verity is Some
}

/// The steps of a mount, in their order: attach the image to a loop
/// device, put a verifying device on top where the mount is verified,
/// and mount the device for reading only.
pub open spec fn plan(request: MountRequestView, offset: u64, size: u64, verity: Option<Seq<char>>) -> Seq<
    StepView,
> {
    seq![StepView::AttachLoop { offset, size }] + if verifies(request, verity) {
        seq![
            StepView::CreateVerity { name: verity_name(request.container), root_hash: verity->0 },
        ]
    } else {
        Seq::empty()
    } + seq![StepView::Mount { target: request.root }]
}

/// What takes the first `done` steps back: their undoing, the last step
/// first.
pub open spec fn rewound(steps: Seq<StepView>, done: int) -> Seq<UndoView> {
    Seq::new(done as nat, |i: int| steps[done - 1 - i].undo())
}

/// The steps that mount the package of a request, given where its file
/// system image lies.
pub fn steps(request: &MountRequest, image: &Image) -> (r: Vec<Step>)
    ensures
        r.deep_view() == plan(
            request@,
            image.offset,
            image.size,
            match image.verity {
                Some(v) => Some(v.root_hash@),
                None => None,
            },
        ),
{
    let mut r: Vec<Step> = Vec::new();
    r.push(Step::AttachLoop { offset: image.offset, size: image.size });
    if request.verity {
        if let Some(verity) = &image.verity {
            proof {
                reveal_strlit("_");
            }
            let version = request.container.version.to_string();
            let name = concat3(request.container.name.as_str(), "_", version.as_str());
            assert(name@ =~= verity_name(request@.container));
            r.push(Step::CreateVerity { name, root_hash: verity.root_hash.clone() });
        }
    }
    r.push(Step::Mount { target: request.root.clone() });
    assert(r.deep_view() =~= plan(
        request@,
        image.offset,
        image.size,
        match image.verity {
            Some(v) => Some(v.root_hash@),
            None => None,
        },
    ));
    r
}

/// Whether the device that results from these steps verifies its blocks.
pub fn is_verity(steps: &Vec<Step>) -> (r: bool)
    ensures
        r == exists|i: int| 0 <= i < steps.len() && #[trigger] steps[i] is CreateVerity,
{
    let mut i: usize = 0;
    while i < steps.len()
        invariant
            i <= steps.len(),
            forall|j: int| 0 <= j < i ==> !(#[trigger] steps[j] is CreateVerity),
        decreases steps.len() - i,
    {
        if let Step::CreateVerity { name, root_hash } = &steps[i] {
            return true;
        }
        i += 1;
    }
    false
}

/// After a failure, what takes back the steps that were done: the first
/// `done` steps, the last of them first. With more than there are
/// steps, all of them are taken back.
pub fn rewind(steps: &Vec<Step>, done: usize) -> (r: Vec<Undo>)
    ensures
        r.deep_view() == rewound(
            steps.deep_view(),
            if done <= steps.len() {
                done as int
            } else {
                steps.len() as int
            },
        ),
{
    let n = if done <= steps.len() {
        done
    } else {
        steps.len()
    };
    let mut r: Vec<Undo> = Vec::new();
    let mut i: usize = 0;
    while i < n
        invariant
            i <= n <= steps.len(),
            r.len() == i,
            forall|j: int| 0 <= j < i ==> (#[trigger] r[j])@ == steps[n - 1 - j]@.undo(),
        decreases n - i,
    {
        let undo = match &steps[n - 1 - i] {
            Step::AttachLoop { offset, size } => Undo::DetachLoop,
            Step::CreateVerity { name, root_hash } => Undo::RemoveVerity { name: name.clone() },
            Step::Mount { target } => Undo::Umount { target: target.clone() },
        };
        r.push(undo);
        i += 1;
    }
    assert(r.deep_view() =~= rewound(steps.deep_view(), n as int));
    r
}

/// The steps that take a mount apart, in their order: unmount the
/// directory, remove the verifying device if there is one, detach the
/// loop device.
pub open spec fn torn_down(umount: UmountView) -> Seq<UndoView> {
    seq![UndoView::Umount { target: umount.root }] + if umount.verity is Some {
        seq![UndoView::RemoveVerity { name: verity_name(umount.container) }]
    } else {
        Seq::empty()
    } + seq![UndoView::DetachLoop]
}

/// The steps that take a mount apart.
pub fn teardown(umount: &Umount) -> (r: Vec<Undo>)
    ensures
        r.deep_view() == torn_down(umount@),
{
    let mut r: Vec<Undo> = Vec::new();
    r.push(Undo::Umount { target: umount.root.clone() });
    if umount.verity.is_some() {
        proof {
            reveal_strlit("_");
        }
        let version = umount.container.version.to_string();
        let name = concat3(umount.container.name.as_str(), "_", version.as_str());
        assert(name@ =~= verity_name(umount@.container));
        r.push(Undo::RemoveVerity { name });
    }
    r.push(Undo::DetachLoop);
    assert(r.deep_view() =~= torn_down(umount@));
    r
}

/// A mount that was made whole is taken apart by the steps that take
/// back all of its steps.
pub proof fn lemma_teardown_reverses(
    request: MountRequestView,
    offset: u64,
    size: u64,
    verity: Option<Seq<char>>,
    device: Seq<char>,
)
    ensures
        rewound(plan(request, offset, size, verity), plan(request, offset, size, verity).len() as int)
            == torn_down(
            UmountView {
                container: request.container,
                root: request.root,
                verity: if verifies(request, verity) {
                    Some(device)
                } else {
                    None
                },
            },
        ),
{
    let steps = plan(request, offset, size, verity);
    let umount = UmountView {
        container: request.container,
        root: request.root,
        verity: if verifies(request, verity) {
            Some(device)
        } else {
            None
        },
    };
    assert(rewound(steps, steps.len() as int) =~= torn_down(umount));
}

/// What to do while a verifying device is being removed.
#[derive(Clone, Copy, Debug, PartialEq, Eq, Structural)]
pub enum Removal {
    /// The device is gone.
    Gone,
    /// Look again.
    Again,
    /// The device is still there at the deadline.
    TimedOut,
}

/// Decides whether to go on waiting for a verifying device to leave the
/// list of devices, after `waited` milliseconds of at most `deadline`.
pub fn removal(present: bool, waited: u64, deadline: u64) -> (r: Removal)
    ensures
        r == if !present {
            Removal::Gone
        } else if waited >= deadline {
            Removal::TimedOut
        } else {
            Removal::Again
        },
{
    if !present {
        Removal::Gone
    } else if waited >= deadline {
        Removal::TimedOut
    } else {
        Removal::Again
    }
}

} // verus!
