//! The engine's state as mathematics: what is installed, mounted and
//! running, when a state is well formed, and what each operation makes
//! of a state.

use crate::error::Error;
use crate::model::{
    Container, ContainerDataView, ContainerId, ManifestView, Notification, Process, RepositoryId,
    Resources,
};
use crate::state::types::{
    BlockDeviceView, MountOutcome, MountRequest, MountRequestView, MountedView,
    ProcessContext, RepositoryView, Termination, Umount, UmountView,
};
use vstd::prelude::*;

verus! {

/// The directory at which a container is mounted: the run directory, a
/// slash, and the container's identity as text.
pub open spec fn mount_point(run_dir: Seq<char>, id: ContainerId) -> Seq<char> {
    run_dir + seq!['/'] + id.text()
}

/// Whether `p` is a package of repository `r`.
pub open spec fn holds(repositories: Seq<RepositoryView>, r: int, p: int) -> bool {
    0 <= r < repositories.len() && 0 <= p < repositories[r].packages.len()
}

pub open spec fn package(repositories: Seq<RepositoryView>, r: int, p: int) -> ManifestView {
    repositories[r].packages[p]
}

/// Whether a repository of this label exists.
pub open spec fn known(repositories: Seq<RepositoryView>, label: Seq<char>) -> bool {
    exists|r: int| 0 <= r < repositories.len() && (#[trigger] repositories[r]).id == label
}

/// The place of the repository of this label.
pub open spec fn repository_index(repositories: Seq<RepositoryView>, label: Seq<char>) -> int {
    choose|r: int| 0 <= r < repositories.len() && (#[trigger] repositories[r]).id == label
}

/// Whether some repository holds a package of this identity.
pub open spec fn installed(repositories: Seq<RepositoryView>, id: ContainerId) -> bool {
    exists|r: int, p: int|
        holds(repositories, r, p) && (#[trigger] package(repositories, r, p)).id() == id
}

/// The repository and the place in it of the package of this identity.
pub open spec fn location(repositories: Seq<RepositoryView>, id: ContainerId) -> (int, int) {
    choose|r: int, p: int|
        holds(repositories, r, p) && (#[trigger] package(repositories, r, p)).id() == id
}

/// The manifest of the installed package of this identity.
pub open spec fn manifest_of(repositories: Seq<RepositoryView>, id: ContainerId) -> ManifestView {
    package(repositories, location(repositories, id).0, location(repositories, id).1)
}

/// Whether the repository that holds `id` verifies its packages.
pub open spec fn verified(repositories: Seq<RepositoryView>, id: ContainerId) -> bool {
    repositories[location(repositories, id).0].key is Some
}

/// No two repositories share a label.
pub open spec fn labels_distinct(repositories: Seq<RepositoryView>) -> bool {
    forall|i: int, j: int|
        0 <= i < j < repositories.len() ==> (#[trigger] repositories[i]).id != (
        #[trigger] repositories[j]).id
}

/// No two packages of the whole repository set share an identity.
pub open spec fn packages_distinct(repositories: Seq<RepositoryView>) -> bool {
    forall|r: int, p: int, q: int, t: int|
        holds(repositories, r, p) && holds(repositories, q, t) && (r != q || p != t) ==> (
        #[trigger] package(repositories, r, p)).id() != (#[trigger] package(
            repositories,
            q,
            t,
        )).id()
}

/// Every package has a manifest that can describe a package.
pub open spec fn packages_valid(repositories: Seq<RepositoryView>) -> bool {
    forall|r: int, p: int|
        holds(repositories, r, p) ==> (#[trigger] package(repositories, r, p)).wf()
}

/// Whether a container of this identity is among the mounted ones.
pub open spec fn mounted(containers: Seq<MountedView>, id: ContainerId) -> bool {
    exists|k: int| 0 <= k < containers.len() && (#[trigger] containers[k]).container == id
}

/// The place of the mounted container of this identity.
pub open spec fn index(containers: Seq<MountedView>, id: ContainerId) -> int {
    choose|k: int| 0 <= k < containers.len() && (#[trigger] containers[k]).container == id
}

/// Whether the container of this identity is mounted and has a process.
pub open spec fn running(containers: Seq<MountedView>, id: ContainerId) -> bool {
    exists|k: int|
        0 <= k < containers.len() && (#[trigger] containers[k]).container == id
            && containers[k].process is Some
}

/// Whether a running application refers to `id` as a resource.
pub open spec fn busy(containers: Seq<MountedView>, id: ContainerId) -> bool {
    exists|k: int|
        0 <= k < containers.len() && (#[trigger] containers[k]).process is Some
            && containers[k].manifest.resources().contains(id)
}

/// Whether every container of the list is mounted.
pub open spec fn all_mounted(containers: Seq<MountedView>, ids: Seq<ContainerId>) -> bool {
    forall|j: int| 0 <= j < ids.len() ==> mounted(containers, #[trigger] ids[j])
}

/// No identity is mounted twice.
pub open spec fn containers_distinct(containers: Seq<MountedView>) -> bool {
    forall|k: int, l: int|
        0 <= k < l < containers.len() ==> (#[trigger] containers[k]).container != (
        #[trigger] containers[l]).container
}

/// Whether the installed package of `a` refers to `b` as a resource.
pub open spec fn refers_to(repositories: Seq<RepositoryView>, a: ContainerId, b: ContainerId) -> bool {
    installed(repositories, a) && manifest_of(repositories, a).resources().contains(b)
}

/// Whether each container of the list refers to the next one.
pub open spec fn chain(repositories: Seq<RepositoryView>, path: Seq<ContainerId>) -> bool {
    &&& path.len() > 0
    &&& forall|i: int|
        0 <= i < path.len() - 1 ==> refers_to(repositories, #[trigger] path[i], path[i + 1])
}

/// Whether `from` needs `to`: it is `to`, or it refers to a container
/// that needs `to`.
pub open spec fn needs(repositories: Seq<RepositoryView>, from: ContainerId, to: ContainerId) -> bool {
    exists|path: Seq<ContainerId>| #[trigger]
        chain(repositories, path) && path[0] == from && path.last() == to
}

/// Whether the plan holds a mount of the container `id`.
pub open spec fn planned(plan: Seq<MountRequest>, id: ContainerId) -> bool {
    exists|i: int| 0 <= i < plan.len() && (#[trigger] plan[i]).container@ == id
}

/// How many of the packages are not among `seen`.
pub open spec fn unseen_packages(packages: Seq<ManifestView>, seen: Seq<ContainerId>) -> nat
    decreases packages.len(),
{
    if packages.len() == 0 {
        0
    } else {
        unseen_packages(packages.drop_last(), seen) + if seen.contains(packages.last().id()) {
            0nat
        } else {
            1nat
        }
    }
}

/// How many packages of the repositories are not among `seen`.
pub open spec fn unseen(repositories: Seq<RepositoryView>, seen: Seq<ContainerId>) -> nat
    decreases repositories.len(),
{
    if repositories.len() == 0 {
        0
    } else {
        unseen(repositories.drop_last(), seen) + unseen_packages(
            repositories.last().packages,
            seen,
        )
    }
}

/// The engine's state as mathematics: the repositories in the order in
/// which they were configured, each with its packages in the order in
/// which they were installed, and the mounted containers in the order in
/// which they were mounted.
pub struct StateView {
    pub run_dir: Seq<char>,
    pub repositories: Seq<RepositoryView>,
    pub containers: Seq<MountedView>,
}

impl StateView {
    pub open spec fn known(self, label: Seq<char>) -> bool {
        known(self.repositories, label)
    }

    pub open spec fn installed(self, id: ContainerId) -> bool {
        installed(self.repositories, id)
    }

    pub open spec fn manifest_of(self, id: ContainerId) -> ManifestView {
        manifest_of(self.repositories, id)
    }

    pub open spec fn mounted(self, id: ContainerId) -> bool {
        mounted(self.containers, id)
    }

    pub open spec fn running(self, id: ContainerId) -> bool {
        running(self.containers, id)
    }

    pub open spec fn busy(self, id: ContainerId) -> bool {
        busy(self.containers, id)
    }

    /// What holds of each mounted container: it is installed and carries
    /// the manifest of its package; it is mounted at its own directory
    /// under the run directory; a resource does not run; and what a
    /// running application refers to is mounted.
    pub open spec fn entry_wf(self, e: MountedView) -> bool {
        &&& installed(self.repositories, e.container)
        &&& e.manifest == manifest_of(self.repositories, e.container)
        &&& e.root == mount_point(self.run_dir, e.container)
        &&& (e.manifest.is_resource() ==> e.process is None)
        &&& (e.process is Some ==> all_mounted(self.containers, e.manifest.resources()))
    }

    pub open spec fn wf(self) -> bool {
        &&& labels_distinct(self.repositories)
        &&& packages_distinct(self.repositories)
        &&& packages_valid(self.repositories)
        &&& containers_distinct(self.containers)
        &&& forall|k: int|
            0 <= k < self.containers.len() ==> self.entry_wf(#[trigger] self.containers[k])
    }

    /// The entry of a container of this identity, newly mounted from
    /// `device`: a verified device where its repository has a key.
    pub open spec fn entry_for(self, id: ContainerId, device: Seq<char>) -> MountedView {
        MountedView {
            container: id,
            manifest: manifest_of(self.repositories, id),
            root: mount_point(self.run_dir, id),
            device: if verified(self.repositories, id) {
                BlockDeviceView::Verity(device)
            } else {
                BlockDeviceView::Loopback(device)
            },
            process: None,
        }
    }

    /// What is asked of the mount manager for the installed package of
    /// this identity.
    pub open spec fn request_for(self, id: ContainerId) -> MountRequestView {
        MountRequestView {
            container: id,
            repository: self.repositories[location(self.repositories, id).0].id,
            root: mount_point(self.run_dir, id),
            verity: verified(self.repositories, id),
        }
    }

    /// Whether this outcome stands in the way of a start: the mount
    /// failed, or the container is not installed.
    pub open spec fn failed(self, outcome: MountOutcome) -> bool {
        outcome.1 is Err || !installed(self.repositories, outcome.0.container@)
    }

    /// The place of the first outcome of the list that failed.
    pub open spec fn first_failure(self, outcomes: Seq<MountOutcome>) -> Option<int>
        decreases outcomes.len(),
    {
        if outcomes.len() == 0 {
            None
        } else {
            match self.first_failure(outcomes.drop_last()) {
                Some(i) => Some(i),
                None => if self.failed(outcomes.last()) {
                    Some(outcomes.len() - 1)
                } else {
                    None
                },
            }
        }
    }

    /// The state after the mounts of the list that were made have been
    /// recorded, in the list's order.
    pub open spec fn apply_mounts(self, outcomes: Seq<MountOutcome>) -> StateView
        decreases outcomes.len(),
    {
        if outcomes.len() == 0 {
            self
        } else {
            let t = self.apply_mounts(outcomes.drop_last());
            match outcomes.last().1 {
                Ok(device) => if mounted(t.containers, outcomes.last().0.container@) {
                    t
                } else {
                    t.mount(t.entry_for(outcomes.last().0.container@, device@))
                },
                Err(_) => t,
            }
        }
    }

    /// The state after each container of the list that is mounted, does
    /// not run and is not in use has been unmounted, in the list's
    /// order, and what it takes to unmount them.
    pub open spec fn unmount_all(self, ids: Seq<ContainerId>) -> (StateView, Seq<UmountView>)
        decreases ids.len(),
    {
        if ids.len() == 0 {
            (self, Seq::empty())
        } else {
            let (t, undo) = self.unmount_all(ids.drop_last());
            let id = ids.last();
            if mounted(t.containers, id) && !running(t.containers, id) && !busy(
                t.containers,
                id,
            ) {
                (t.umount(id), undo.push(t.containers[index(t.containers, id)].teardown()))
            } else {
                (t, undo)
            }
        }
    }

    /// Whether `plan` is what has to be mounted before the application
    /// `container` starts: the containers that it needs and that are not
    /// mounted, each once, each with the request for its own mount, and
    /// the application first if it is among them.
    pub open spec fn start_plan(self, container: ContainerId, plan: Seq<MountRequest>) -> bool {
        &&& (forall|id: ContainerId|
            #[trigger] planned(plan, id) <==> needs(self.repositories, container, id) && !mounted(
                self.containers,
                id,
            ))
        &&& (forall|i: int, j: int|
            0 <= i < j < plan.len() ==> (#[trigger] plan[i]).container@ != (
            #[trigger] plan[j]).container@)
        &&& (forall|i: int|
            0 <= i < plan.len() ==> (#[trigger] plan[i])@ == self.request_for(plan[i].container@))
        &&& (!mounted(self.containers, container) ==> plan.len() > 0 && plan[0].container@
            == container)
    }

    /// What a decision on the start of `container` must be: the plan of
    /// what to mount first, or the reason why it cannot start.
    ///
    /// An application that is installed and does not run can start if
    /// everything that it needs is installed: its resources, their
    /// resources, and so on. Otherwise one of the containers that it
    /// needs and that are not installed is reported as missing.
    pub open spec fn start_decision(
        self,
        container: Container,
        r: Result<Vec<MountRequest>, Error>,
    ) -> bool {
        match r {
            Ok(plan) => {
                &&& self.installed(container@)
                &&& !self.manifest_of(container@).is_resource()
                &&& !self.running(container@)
                &&& (forall|id: ContainerId|
                    needs(self.repositories, container@, id) ==> installed(self.repositories, id))
                &&& self.start_plan(container@, plan@)
            },
            Err(Error::InvalidContainer(c)) => !self.installed(container@) && c == container,
            Err(Error::StartContainerResource(c)) => {
                &&& self.installed(container@)
                &&& self.manifest_of(container@).is_resource()
                &&& c == container
            },
            Err(Error::StartContainerStarted(c)) => {
                &&& self.installed(container@)
                &&& !self.manifest_of(container@).is_resource()
                &&& self.running(container@)
                &&& c == container
            },
            Err(Error::StartContainerMissingResource(c, resource)) => {
                &&& self.installed(container@)
                &&& !self.manifest_of(container@).is_resource()
                &&& !self.running(container@)
                &&& needs(self.repositories, container@, resource@)
                &&& !installed(self.repositories, resource@)
                &&& c == container
            },
            Err(_) => false,
        }
    }

    /// What a decision on stopping `container` must be, and the state
    /// `after` it.
    pub open spec fn stop_decision(
        self,
        after: StateView,
        container: Container,
        timeout: u64,
        r: Result<Termination, Error>,
    ) -> bool {
        match r {
            Ok(t) => {
                &&& self.running(container@)
                &&& self.containers[index(self.containers, container@)].ends(t, timeout)
                &&& t.container == container
                &&& after == self.set_process(container@, None)
            },
            Err(e) => {
                &&& !self.running(container@)
                &&& e == Error::StopContainerNotStarted(container)
                &&& after == self
            },
        }
    }

    /// What a decision on unmounting `container` must be, and the state
    /// `after` it.
    pub open spec fn umount_decision(
        self,
        after: StateView,
        container: Container,
        r: Result<Option<Umount>, Error>,
    ) -> bool {
        match r {
            Ok(Some(u)) => {
                &&& self.mounted(container@)
                &&& !self.running(container@)
                &&& !self.busy(container@)
                &&& u@ == self.containers[index(self.containers, container@)].teardown()
                &&& after == self.umount(container@)
            },
            Ok(None) => {
                &&& !self.mounted(container@)
                &&& after == self
            },
            Err(e) => {
                &&& self.mounted(container@)
                &&& (self.running(container@) || self.busy(container@))
                &&& e == Error::UmountBusy(container)
                &&& after == self
            },
        }
    }

    /// What a decision on uninstalling `container` must be, and the
    /// state `after` it.
    pub open spec fn uninstall_decision(
        self,
        after: StateView,
        container: Container,
        r: Result<(Option<Umount>, Notification), Error>,
    ) -> bool {
        match r {
            Ok((u, n)) => {
                &&& self.installed(container@)
                &&& !self.running(container@)
                &&& !self.busy(container@)
                &&& after == self.uninstall(container@)
                &&& match u {
                    Some(u) => self.mounted(container@) && u@ == self.containers[index(
                        self.containers,
                        container@,
                    )].teardown(),
                    None => !self.mounted(container@),
                }
                &&& n matches Notification::Uninstalled(name, version) && name@
                    == container@.name && version == container@.version
            },
            Err(Error::InvalidContainer(c)) => {
                &&& !self.installed(container@)
                &&& c == container
                &&& after == self
            },
            Err(Error::UmountBusy(c)) => {
                &&& self.installed(container@)
                &&& (self.running(container@) || self.busy(container@))
                &&& c == container
                &&& after == self
            },
            Err(_) => false,
        }
    }

    /// What a decision on a request to install a package of `size` bytes
    /// into `repository` must be.
    pub open spec fn install_decision(
        self,
        repository: Seq<char>,
        size: u64,
        r: Result<(), Error>,
    ) -> bool {
        match r {
            Ok(()) => self.known(repository) && size > 0,
            Err(Error::InvalidRepository(label)) => !self.known(repository) && label@
                == repository,
            Err(Error::Npk(cause, description)) => self.known(repository) && size == 0 && cause@
                == repository && description@ == "Malformed package: empty"@,
            Err(_) => false,
        }
    }

    /// What the list of containers says of package `p` of repository
    /// `r` at the instant `now`.
    pub open spec fn line(self, now: u64, r: int, p: int) -> ContainerDataView {
        let manifest = package(self.repositories, r, p);
        let id = manifest.id();
        ContainerDataView {
            container: id,
            repository: self.repositories[r].id,
            manifest,
            process: if mounted(self.containers, id) {
                match self.containers[index(self.containers, id)].process {
                    Some(process) => Some(
                        Process {
                            pid: process.pid,
                            uptime: if now >= process.started {
                                (now - process.started) as u64
                            } else {
                                0
                            },
                            resources: Resources { memory: None },
                        },
                    ),
                    None => None,
                }
            } else {
                None
            },
            mounted: mounted(self.containers, id),
        }
    }

    /// The lines of the packages of repository `r`, in their order.
    pub open spec fn lines(self, now: u64, r: int) -> Seq<ContainerDataView> {
        Seq::new(self.repositories[r].packages.len(), |p: int| self.line(now, r, p))
    }

    /// The lines of the packages of the first `upto` repositories.
    pub open spec fn listing(self, now: u64, upto: int) -> Seq<ContainerDataView>
        decreases upto,
    {
        if upto <= 0 {
            Seq::empty()
        } else {
            self.listing(now, upto - 1) + self.lines(now, upto - 1)
        }
    }

    /// The labels of the repositories, in their order.
    pub open spec fn labels(self) -> Seq<Seq<char>> {
        Seq::new(self.repositories.len(), |r: int| self.repositories[r].id)
    }

    /// What is to be done for entry `i` of a list of containers to
    /// mount: a mount, if the container is installed, is not mounted
    /// and is not named earlier in the list.
    pub open spec fn mount_step(self, containers: Seq<ContainerId>, i: int) -> Option<
        MountRequestView,
    > {
        if installed(self.repositories, containers[i]) && !mounted(self.containers, containers[i])
            && !containers.take(i).contains(containers[i]) {
            Some(self.request_for(containers[i]))
        } else {
            None
        }
    }

    /// The state with one more mounted container.
    pub open spec fn mount(self, e: MountedView) -> StateView {
        StateView { containers: self.containers.push(e), ..self }
    }

    /// The state without the mounted container of this identity.
    pub open spec fn umount(self, id: ContainerId) -> StateView {
        if mounted(self.containers, id) {
            StateView { containers: self.containers.remove(index(self.containers, id)), ..self }
        } else {
            self
        }
    }

    /// The state in which the mounted container of this identity has this
    /// process, or none.
    pub open spec fn set_process(
        self,
        id: ContainerId,
        process: Option<ProcessContext>,
    ) -> StateView {
        if mounted(self.containers, id) {
            let k = index(self.containers, id);
            StateView {
                containers: self.containers.update(
                    k,
                    MountedView { process, ..self.containers[k] },
                ),
                ..self
            }
        } else {
            self
        }
    }

    /// The state with one more package in repository `r`.
    pub open spec fn install(self, r: int, manifest: ManifestView) -> StateView {
        StateView {
            repositories: self.repositories.update(
                r,
                RepositoryView {
                    packages: self.repositories[r].packages.push(manifest),
                    ..self.repositories[r]
                },
            ),
            ..self
        }
    }

    /// The state without the package of this identity.
    pub open spec fn remove_package(self, id: ContainerId) -> StateView {
        if installed(self.repositories, id) {
            let (r, p) = location(self.repositories, id);
            StateView {
                repositories: self.repositories.update(
                    r,
                    RepositoryView {
                        packages: self.repositories[r].packages.remove(p),
                        ..self.repositories[r]
                    },
                ),
                ..self
            }
        } else {
            self
        }
    }

    /// The state in which the container of this identity is neither
    /// mounted nor installed.
    pub open spec fn uninstall(self, id: ContainerId) -> StateView {
        self.umount(id).remove_package(id)
    }
}

/// The containers of the list that have a process, in the list's order.
pub open spec fn running_ones(containers: Seq<MountedView>) -> Seq<MountedView>
    decreases containers.len(),
{
    if containers.len() == 0 {
        Seq::empty()
    } else if containers.last().process is Some {
        running_ones(containers.drop_last()).push(containers.last())
    } else {
        running_ones(containers.drop_last())
    }
}

/// The first container of the list that is not mounted.
pub open spec fn first_unmounted(containers: Seq<MountedView>, ids: Seq<ContainerId>) -> Option<
    ContainerId,
>
    decreases ids.len(),
{
    if ids.len() == 0 {
        None
    } else {
        match first_unmounted(containers, ids.drop_last()) {
            Some(id) => Some(id),
            None => if !mounted(containers, ids.last()) {
                Some(ids.last())
            } else {
                None
            },
        }
    }
}

/// What it takes to undo a mount that was made from `device`.
pub open spec fn undo_of(request: MountRequestView, device: Seq<char>) -> UmountView {
    UmountView {
        container: request.container,
        root: request.root,
        verity: if request.verity {
            Some(device)
        } else {
            None
        },
    }
}

/// What it takes to undo the mounts of the list that were made, in the
/// list's order.
pub open spec fn rollbacks(outcomes: Seq<MountOutcome>) -> Seq<UmountView>
    decreases outcomes.len(),
{
    if outcomes.len() == 0 {
        Seq::empty()
    } else {
        let rest = rollbacks(outcomes.drop_last());
        match outcomes.last().1 {
            Ok(device) => rest.push(undo_of(outcomes.last().0@, device@)),
            Err(_) => rest,
        }
    }
}

/// Whether no process of the list was started after `now`.
pub open spec fn started_before(containers: Seq<MountedView>, now: u64) -> bool {
    forall|k: int|
        0 <= k < containers.len() ==> match (#[trigger] containers[k]).process {
            Some(process) => process.started <= now,
            None => true,
        }
}

/// Whether the label at place `j` is the first of the list that an
/// earlier place has too.
pub open spec fn first_repeat(repositories: Seq<(RepositoryId, Option<String>)>, j: int) -> bool {
    &&& (exists|i: int| 0 <= i < j && (#[trigger] repositories[i]).0@ == repositories[j].0@)
    &&& (forall|a: int, b: int|
        0 <= a < b < j ==> (#[trigger] repositories[a]).0@ != (#[trigger] repositories[b]).0@)
}

/// Whether every mount of the list was made, and no two of them are of
/// the same container.
pub open spec fn all_made(outcomes: Seq<MountOutcome>) -> bool {
    &&& (forall|i: int| 0 <= i < outcomes.len() ==> (#[trigger] outcomes[i]).1 is Ok)
    &&& (forall|i: int, j: int|
        0 <= i < j < outcomes.len() ==> (#[trigger] outcomes[i]).0.container@ != (
        #[trigger] outcomes[j]).0.container@)
}

/// The entries of the mounts of a list that were all made.
pub open spec fn entries_of(s: StateView, outcomes: Seq<MountOutcome>) -> Seq<MountedView> {
    Seq::new(
        outcomes.len(),
        |i: int| s.entry_for(outcomes[i].0.container@, outcomes[i].1->Ok_0@),
    )
}

/// The containers of a list of outcomes.
pub open spec fn containers_of(outcomes: Seq<MountOutcome>) -> Seq<ContainerId> {
    Seq::new(outcomes.len(), |i: int| outcomes[i].0.container@)
}

} // verus!
