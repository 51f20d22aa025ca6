//! The state engine: which packages are installed, which containers are
//! mounted and which of them run.
//!
//! The engine decides and keeps the books; it performs no mount and
//! launches no process. Each operation that needs such work hands out a
//! request for it, and is told the outcome by a later call.

pub mod laws;
pub mod types;
pub mod view;

use crate::error::Error;
use crate::model::{
    Container, ContainerData, ContainerId, Manifest, ManifestView, MountResult, Notification, Pid,
    Process, RepositoryId, Request, Resources, Response,
};
use crate::state::laws::{
    lemma_closed, lemma_contains_push, lemma_first_failure_prefix, lemma_first_unmounted_none,
    lemma_first_unmounted_prefix, lemma_index, lemma_install_wf, lemma_location,
    lemma_mount_wf, lemma_mounted_remove, lemma_needs_itself, lemma_needs_step,
    lemma_no_failure, lemma_remove_package_wf, lemma_repository_index, lemma_running_index,
    lemma_set_process_wf, lemma_umount_wf, lemma_unseen_push,
};
pub use crate::state::laws::{
    lemma_install_uninstall, lemma_mount_umount, lemma_no_lingering_mount,
    lemma_one_directory_each, lemma_packages_are_unique, lemma_packages_are_valid,
    lemma_plan_suffices,
    lemma_resources_do_not_run, lemma_resources_of_running_are_mounted,
    lemma_roots_are_exclusive, lemma_start_stop,
};
pub use crate::state::types::{
    BlockDevice, BlockDeviceView, GRACE_PERIOD, MountOutcome, MountRequest, MountRequestView,
    MountedContainer, MountedView, ProcessContext, Repository, RepositoryView, Teardown,
    Termination, Umount, UmountView,
};
pub use crate::state::view::{
    StateView, all_made, all_mounted, busy, chain, containers_distinct, containers_of,
    entries_of, first_repeat, first_unmounted, holds, index, installed, known,
    labels_distinct, location, manifest_of, mount_point, mounted, needs, package,
    packages_distinct, packages_valid, planned, refers_to, repository_index, rollbacks, running,
    running_ones,
    started_before, undo_of, unseen, unseen_packages, verified,
};
use crate::text::concat3;
use vstd::prelude::*;
use vstd::string::*;

verus! {

/// Whether the manifest's mount table refers to `container` as a
/// resource.
pub fn refers(manifest: &Manifest, container: &Container) -> (r: bool)
    ensures
        r == manifest@.resources().contains(container@),
{
    let mut found = false;
    let mut i: usize = 0;
    while i < manifest.mounts.len()
        invariant
            i <= manifest.mounts.len(),
            found == crate::model::resource_refs(manifest.mounts.deep_view().take(i as int)).contains(
                container@,
            ),
        decreases manifest.mounts.len() - i,
    {
        let ghost before = crate::model::resource_refs(manifest.mounts.deep_view().take(i as int));
        assert(manifest.mounts.deep_view().take(i + 1).drop_last() =~= manifest.mounts.deep_view().take(
            i as int,
        ));
        match &manifest.mounts[i].1 {
            crate::model::Mount::Resource { name, version, dir } => {
                let ghost id = ContainerId { name: name@, version: *version };
                proof {
                    let after = before.push(id);
                    assert(after[before.len() as int] == id);
                    if before.contains(container@) {
                        let j = choose|j: int| 0 <= j < before.len() && before[j] == container@;
                        assert(after[j] == container@);
                    }
                    if after.contains(container@) && id != container@ {
                        let j = choose|j: int| 0 <= j < after.len() && after[j] == container@;
                        assert(before[j] == container@);
                    }
                }
                if *version == container.version && *name == container.name {
                    found = true;
                }
            },
            _ => {},
        }
        i += 1;
    }
    assert(manifest.mounts.deep_view().take(i as int) =~= manifest.mounts.deep_view());
    found
}

/// The engine: the repositories with their packages, the mounted
/// containers, and a clock that never runs backwards.
#[derive(Debug)]
pub struct State {
    run_dir: String,
    repositories: Vec<Repository>,
    containers: Vec<MountedContainer>,
    now: u64,
}

impl View for State {
    type V = StateView;

    closed spec fn view(&self) -> StateView {
        StateView {
            run_dir: self.run_dir@,
            repositories: self.repositories.deep_view(),
            containers: self.containers.deep_view(),
        }
    }
}

impl State {
    /// The engine's clock: the latest instant it was told of, in
    /// nanoseconds.
    pub closed spec fn clock(&self) -> u64 {
        self.now
    }

    /// The state is well formed, and no process was started after the
    /// clock's instant.
    pub open spec fn wf(&self) -> bool {
        &&& self@.wf()
        &&& started_before(self@.containers, self.clock())
    }

    /// An engine with the given repositories, all empty, and nothing
    /// mounted. Two repositories of one label are a configuration error.
    pub fn new(run_dir: String, repositories: Vec<(RepositoryId, Option<String>)>) -> (r: Result<
        State,
        Error,
    >)
        ensures
            match r {
                Ok(state) => {
                    &&& state.wf()
                    &&& state.clock() == 0
                    &&& state@.run_dir == run_dir@
                    &&& state@.containers.len() == 0
                    &&& state@.repositories.len() == repositories.len()
                    &&& (forall|i: int|
                        0 <= i < repositories.len() ==> (#[trigger] state@.repositories[i])
                            == (RepositoryView {
                            id: repositories[i].0@,
                            key: repositories[i].1.deep_view(),
                            packages: Seq::empty(),
                        }))
                    &&& (forall|i: int, j: int|
                        0 <= i < j < repositories.len() ==> repositories[i].0@
                            != repositories[j].0@)
                },
                Err(e) => e matches Error::Configuration(text) && (exists|j: int|
                    0 <= j < repositories.len() && #[trigger] first_repeat(repositories@, j)
                        && text@ == "Duplicate repository "@ + repositories[j].0@),
            },
    {
        let mut repos: Vec<Repository> = Vec::new();
        let mut j: usize = 0;
        while j < repositories.len()
            invariant
                j <= repositories.len(),
                repos.len() == j,
                forall|i: int|
                    0 <= i < j ==> (#[trigger] repos.deep_view()[i]) == (RepositoryView {
                        id: repositories[i].0@,
                        key: repositories[i].1.deep_view(),
                        packages: Seq::empty(),
                    }),
                forall|a: int, b: int| 0 <= a < b < j ==> repositories[a].0@ != repositories[b].0@,
            decreases repositories.len() - j,
        {
            let mut i: usize = 0;
            while i < j
                invariant
                    i <= j,
                    j < repositories.len(),
                    forall|a: int| 0 <= a < i ==> repositories[a].0@ != repositories[j as int].0@,
                    forall|a: int, b: int|
                        0 <= a < b < j ==> repositories[a].0@ != repositories[b].0@,
                decreases j - i,
            {
                if repositories[i].0 == repositories[j].0 {
                    let mut text = String::from_str("Duplicate repository ");
                    text.append(repositories[j].0.as_str());
                    assert(text@ =~= "Duplicate repository "@ + repositories[j as int].0@);
                    assert(first_repeat(repositories@, j as int));
                    return Err(Error::Configuration(text));
                }
                i += 1;
            }
            let ghost before = repos.deep_view();
            let packages: Vec<Manifest> = Vec::new();
            assert(packages.deep_view() =~= Seq::<ManifestView>::empty());
            repos.push(
                Repository {
                    id: repositories[j].0.clone(),
                    key: repositories[j].1.clone(),
                    packages,
                },
            );
            assert forall|i: int| 0 <= i < j + 1 implies (#[trigger] repos.deep_view()[i]) == (
            RepositoryView {
                id: repositories[i].0@,
                key: repositories[i].1.deep_view(),
                packages: Seq::empty(),
            }) by {
                if i < j {
                    assert(repos.deep_view()[i] == before[i]);
                }
            }
            j += 1;
        }
        let containers: Vec<MountedContainer> = Vec::new();
        let state = State { run_dir, repositories: repos, containers, now: 0 };
        proof {
            assert(state@.containers =~= Seq::<MountedView>::empty());
            assert forall|a: int, b: int| 0 <= a < b < state@.repositories.len() implies (
            #[trigger] state@.repositories[a]).id != (#[trigger] state@.repositories[b]).id by {
                assert(repositories[a].0@ != repositories[b].0@);
            }
        }
        Ok(state)
    }

    /// Tells the engine the time. Its clock takes the later of its own
    /// instant and this one.
    pub fn advance(&mut self, now: u64)
        requires
            old(self).wf(),
        ensures
            final(self).wf(),
            final(self)@ == old(self)@,
            final(self).clock() == if now > old(self).clock() {
                now
            } else {
                old(self).clock()
            },
    {
        if now > self.now {
            self.now = now;
        }
    }

    /// The mounted containers, in the order in which they were mounted.
    pub fn containers(&self) -> (r: &Vec<MountedContainer>)
        ensures
            r.deep_view() == self@.containers,
    {
        &self.containers
    }

    /// The repositories, in the order in which they were configured.
    pub fn repositories(&self) -> (r: &Vec<Repository>)
        ensures
            r.deep_view() == self@.repositories,
    {
        &self.repositories
    }

    /// The latest instant that the engine was told of, in nanoseconds.
    pub fn now(&self) -> (r: u64)
        ensures
            r == self.clock(),
    {
        self.now
    }

    /// The directory under which containers are mounted.
    pub fn run_dir(&self) -> (r: &String)
        ensures
            r@ == self@.run_dir,
    {
        &self.run_dir
    }

    /// The place of the mounted container of this identity.
    fn position(&self, container: &Container) -> (r: Option<usize>)
        ensures
            match r {
                Some(k) => k < self.containers.len() && self@.containers[k as int].container
                    == container@ && self.containers[k as int]@ == self@.containers[k as int],
                None => !self@.mounted(container@),
            },
    {
        let mut k: usize = 0;
        while k < self.containers.len()
            invariant
                k <= self.containers.len(),
                forall|i: int| 0 <= i < k ==> self.containers[i].container@ != container@,
            decreases self.containers.len() - k,
        {
            if self.containers[k].container.is(container) {
                return Some(k);
            }
            k += 1;
        }
        proof {
            if self@.mounted(container@) {
                let i = index(self@.containers, container@);
                assert(self.containers[i].container@ == container@);
            }
        }
        None
    }

    /// The repository that holds the package of this identity, and the
    /// package's place in it.
    fn locate(&self, container: &Container) -> (r: Option<(usize, usize)>)
        ensures
            match r {
                Some((r, p)) => {
                    &&& r < self.repositories.len()
                    &&& p < self.repositories[r as int].packages.len()
                    &&& holds(self@.repositories, r as int, p as int)
                    &&& package(self@.repositories, r as int, p as int).id() == container@
                    &&& self.repositories[r as int].packages[p as int]@ == package(
                        self@.repositories,
                        r as int,
                        p as int,
                    )
                    &&& self.repositories[r as int]@ == self@.repositories[r as int]
                },
                None => !self@.installed(container@),
            },
    {
        let mut r: usize = 0;
        while r < self.repositories.len()
            invariant
                r <= self.repositories.len(),
                forall|a: int, b: int|
                    0 <= a < r && 0 <= b < self.repositories[a].packages.len()
                        ==> self.repositories[a].packages[b]@.id() != container@,
            decreases self.repositories.len() - r,
        {
            let packages = &self.repositories[r].packages;
            let mut p: usize = 0;
            while p < packages.len()
                invariant
                    p <= packages.len(),
                    r < self.repositories.len(),
                    packages == &self.repositories[r as int].packages,
                    forall|b: int| 0 <= b < p ==> packages[b]@.id() != container@,
                decreases packages.len() - p,
            {
                if packages[p].version == container.version && packages[p].name
                    == container.name {
                    assert(self@.repositories[r as int].packages[p as int] == packages[p as int]@);
                    return Some((r, p));
                }
                p += 1;
            }
            r += 1;
        }
        proof {
            if self@.installed(container@) {
                let (a, b) = location(self@.repositories, container@);
                assert(holds(self@.repositories, a, b));
                assert(package(self@.repositories, a, b) == self.repositories[a].packages[b]@);
            }
        }
        None
    }

    /// The place of the repository of this label.
    fn find_repository(&self, label: &str) -> (r: Option<usize>)
        ensures
            match r {
                Some(r) => r < self.repositories.len() && self@.repositories[r as int].id
                    == label@,
                None => !self@.known(label@),
            },
    {
        let mut r: usize = 0;
        while r < self.repositories.len()
            invariant
                r <= self.repositories.len(),
                forall|a: int| 0 <= a < r ==> self.repositories[a].id@ != label@,
            decreases self.repositories.len() - r,
        {
            if crate::text::str_eq(self.repositories[r].id.as_str(), label) {
                return Some(r);
            }
            r += 1;
        }
        proof {
            if self@.known(label@) {
                let a = repository_index(self@.repositories, label@);
                assert(self.repositories[a].id@ == label@);
            }
        }
        None
    }

    /// Whether a container of this identity is mounted.
    pub fn is_mounted(&self, container: &Container) -> (r: bool)
        ensures
            r == self@.mounted(container@),
    {
        self.position(container).is_some()
    }

    /// Whether the container of this identity runs.
    pub fn is_running(&self, container: &Container) -> (r: bool)
        requires
            self.wf(),
        ensures
            r == self@.running(container@),
    {
        match self.position(container) {
            Some(k) => {
                proof {
                    lemma_index(self@.containers, container@, k as int);
                    if self@.running(container@) {
                        let j = choose|j: int|
                            0 <= j < self@.containers.len() && (
                            #[trigger] self@.containers[j]).container == container@
                                && self@.containers[j].process is Some;
                        lemma_index(self@.containers, container@, j);
                    }
                }
                self.containers[k].process.is_some()
            },
            None => false,
        }
    }

    /// The manifest of the installed package of this identity, and the
    /// key of its repository, where it has one.
    pub fn npk(&self, container: &Container) -> (r: Option<(&Manifest, Option<&String>)>)
        requires
            self.wf(),
        ensures
            r is Some <==> self@.installed(container@),
            r matches Some((manifest, key)) ==> manifest@ == self@.manifest_of(container@) && (
            key is Some <==> verified(self@.repositories, container@)),
    {
        match self.locate(container) {
            Some((r, p)) => {
                proof {
                    lemma_location(self@.repositories, container@, r as int, p as int);
                }
                Some((&self.repositories[r].packages[p], self.repositories[r].key.as_ref()))
            },
            None => None,
        }
    }
}

impl State {
    /// The directory at which the container of this identity is mounted.
    fn root_of(&self, container: &Container) -> (root: String)
        ensures
            root@ == mount_point(self@.run_dir, container@),
    {
        proof {
            reveal_strlit("/");
        }
        let name = container.to_string();
        let root = concat3(self.run_dir.as_str(), "/", name.as_str());
        assert(root@ =~= mount_point(self@.run_dir, container@));
        root
    }

    /// Whether a running application refers to `container` as a resource.
    pub fn is_busy(&self, container: &Container) -> (r: bool)
        ensures
            r == self@.busy(container@),
    {
        let mut k: usize = 0;
        while k < self.containers.len()
            invariant
                k <= self.containers.len(),
                forall|i: int|
                    0 <= i < k ==> !(self.containers[i].process is Some
                        && self.containers[i].manifest@.resources().contains(container@)),
            decreases self.containers.len() - k,
        {
            if self.containers[k].process.is_some() && refers(
                &self.containers[k].manifest,
                container,
            ) {
                assert(self@.containers[k as int].process is Some);
                return true;
            }
            k += 1;
        }
        proof {
            if self@.busy(container@) {
                let i = choose|i: int|
                    0 <= i < self@.containers.len() && (#[trigger] self@.containers[i]).process is Some
                        && self@.containers[i].manifest.resources().contains(container@);
                assert(self.containers[i].process is Some);
            }
        }
        false
    }

    /// Checks a request to install a package of `size` bytes into the
    /// repository `repository`, before any byte of it is read. The
    /// repository must exist, and a package of no bytes is malformed.
    pub fn install_check(&self, repository: &str, size: u64) -> (r: Result<(), Error>)
        ensures
            self@.install_decision(repository@, size, r),
    {
        match self.find_repository(repository) {
            None => Err(Error::InvalidRepository(String::from_str(repository))),
            Some(_) => {
                if size == 0 {
                    Err(
                        Error::Npk(
                            String::from_str(repository),
                            String::from_str("Malformed package: empty"),
                        ),
                    )
                } else {
                    Ok(())
                }
            },
        }
    }

    /// Installs a package, known by its manifest, into the repository
    /// `repository`. The repository must exist, the manifest must be
    /// able to describe a package, and no repository may hold a package
    /// of the same identity.
    pub fn install(&mut self, repository: &str, manifest: Manifest) -> (r: Result<
        Notification,
        Error,
    >)
        requires
            old(self).wf(),
        ensures
            final(self).wf(),
            final(self).clock() == old(self).clock(),
            match r {
                Ok(n) => {
                    &&& old(self)@.known(repository@)
                    &&& manifest@.wf()
                    &&& !old(self)@.installed(manifest@.id())
                    &&& final(self)@ == old(self)@.install(
                        repository_index(old(self)@.repositories, repository@),
                        manifest@,
                    )
                    &&& n == Notification::Install(manifest.name, manifest.version)
                },
                Err(Error::InvalidRepository(label)) => {
                    &&& !old(self)@.known(repository@)
                    &&& label@ == repository@
                    &&& final(self)@ == old(self)@
                },
                Err(Error::Npk(cause, description)) => {
                    &&& old(self)@.known(repository@)
                    &&& !manifest@.wf()
                    &&& cause@ == repository@
                    &&& description@ == "Malformed package: invalid manifest"@
                    &&& final(self)@ == old(self)@
                },
                Err(Error::InstallDuplicate(c)) => {
                    &&& old(self)@.known(repository@)
                    &&& manifest@.wf()
                    &&& old(self)@.installed(manifest@.id())
                    &&& c@ == manifest@.id()
                    &&& final(self)@ == old(self)@
                },
                Err(_) => false,
            },
    {
        let r = match self.find_repository(repository) {
            None => {
                return Err(Error::InvalidRepository(String::from_str(repository)));
            },
            Some(r) => r,
        };
        if !manifest.is_valid() {
            return Err(
                Error::Npk(
                    String::from_str(repository),
                    String::from_str("Malformed package: invalid manifest"),
                ),
            );
        }
        let container = manifest.container();
        if self.locate(&container).is_some() {
            return Err(Error::InstallDuplicate(container));
        }
        let notification = Notification::Install(manifest.name.clone(), manifest.version);
        let ghost before = self@;
        let ghost packages = self.repositories[r as int].packages.deep_view();
        proof {
            lemma_repository_index(before.repositories, repository@, r as int);
            lemma_install_wf(before, r as int, manifest@);
        }
        let mut repo = self.repositories.remove(r);
        repo.packages.push(manifest);
        assert(repo.packages.deep_view() =~= packages.push(manifest@));
        self.repositories.insert(r, repo);
        assert(self@.repositories =~= before.install(r as int, manifest@).repositories);
        assert(self@.containers == before.containers);
        Ok(notification)
    }

    /// What to ask of the mount manager in order to mount `container`.
    pub fn mount(&self, container: &Container) -> (r: Result<MountRequest, Error>)
        requires
            self.wf(),
        ensures
            match r {
                Ok(request) => self@.installed(container@) && request@ == self@.request_for(
                    container@,
                ),
                Err(e) => !self@.installed(container@) && e == Error::InvalidContainer(*container),
            },
    {
        match self.locate(container) {
            None => Err(Error::InvalidContainer(container.clone())),
            Some((r, p)) => {
                proof {
                    lemma_location(self@.repositories, container@, r as int, p as int);
                }
                Ok(
                    MountRequest {
                        container: container.clone(),
                        repository: self.repositories[r].id.clone(),
                        root: self.root_of(container),
                        verity: self.repositories[r].key.is_some(),
                    },
                )
            },
        }
    }

    /// Records that `container` was mounted from `device`. A container
    /// that is mounted already stays as it is.
    pub fn mounted(&mut self, container: &Container, device: String) -> (r: Result<(), Error>)
        requires
            old(self).wf(),
        ensures
            final(self).wf(),
            final(self).clock() == old(self).clock(),
            match r {
                Ok(()) => {
                    &&& old(self)@.installed(container@)
                    &&& final(self)@ == if old(self)@.mounted(container@) {
                        old(self)@
                    } else {
                        old(self)@.mount(old(self)@.entry_for(container@, device@))
                    }
                },
                Err(e) => {
                    &&& !old(self)@.installed(container@)
                    &&& e == Error::InvalidContainer(*container)
                    &&& final(self)@ == old(self)@
                },
            },
    {
        let (r, p) = match self.locate(container) {
            None => {
                return Err(Error::InvalidContainer(container.clone()));
            },
            Some(l) => l,
        };
        if self.position(container).is_some() {
            return Ok(());
        }
        let ghost before = self@;
        let ghost entry = before.entry_for(container@, device@);
        proof {
            lemma_location(before.repositories, container@, r as int, p as int);
            lemma_mount_wf(before, entry);
        }
        let device = if self.repositories[r].key.is_some() {
            BlockDevice::Verity(device)
        } else {
            BlockDevice::Loopback(device)
        };
        let mounted = MountedContainer {
            container: container.clone(),
            manifest: self.repositories[r].packages[p].clone(),
            root: self.root_of(container),
            device,
            process: None,
        };
        assert(mounted@ == entry);
        self.containers.push(mounted);
        assert(self@.containers =~= before.containers.push(entry));
        Ok(())
    }

    /// Takes `container` out of the mounted ones and says what to
    /// unmount. A container that runs, or that a running application
    /// uses, stays. One that is not mounted needs no unmount.
    pub fn umount(&mut self, container: &Container) -> (r: Result<Option<Umount>, Error>)
        requires
            old(self).wf(),
        ensures
            final(self).wf(),
            final(self).clock() == old(self).clock(),
            old(self)@.umount_decision(final(self)@, *container, r),
    {
        let k = match self.position(container) {
            None => {
                return Ok(None);
            },
            Some(k) => k,
        };
        let running = self.is_running(container);
        if running || self.is_busy(container) {
            return Err(Error::UmountBusy(container.clone()));
        }
        let ghost before = self@;
        proof {
            lemma_index(before.containers, container@, k as int);
            lemma_umount_wf(before, container@);
        }
        let mounted = self.containers.remove(k);
        assert(self@.containers =~= before.containers.remove(k as int));
        Ok(Some(mounted.teardown()))
    }
}

/// Whether `container` is in the list.
fn listed(list: &Vec<Container>, container: &Container) -> (r: bool)
    ensures
        r == list.deep_view().contains(container@),
{
    let mut i: usize = 0;
    while i < list.len()
        invariant
            i <= list.len(),
            forall|j: int| 0 <= j < i ==> list[j]@ != container@,
        decreases list.len() - i,
    {
        if list[i].is(container) {
            assert(list.deep_view()[i as int] == container@);
            return true;
        }
        i += 1;
    }
    proof {
        if list.deep_view().contains(container@) {
            let j = choose|j: int| 0 <= j < list.deep_view().len() && list.deep_view()[j] == container@;
            assert(list[j]@ == container@);
        }
    }
    false
}

impl State {
    /// Decides whether `container` may be started, and what has to be
    /// mounted first. It must be an installed application that does not
    /// run, and all that it needs must be installed.
    pub fn start(&self, container: &Container) -> (r: Result<Vec<MountRequest>, Error>)
        requires
            self.wf(),
        ensures
            self@.start_decision(*container, r),
    {
        let (r, p) = match self.locate(container) {
            None => {
                return Err(Error::InvalidContainer(container.clone()));
            },
            Some(l) => l,
        };
        proof {
            lemma_location(self@.repositories, container@, r as int, p as int);
        }
        if self.repositories[r].packages[p].is_resource() {
            return Err(Error::StartContainerResource(container.clone()));
        }
        if self.is_running(container) {
            return Err(Error::StartContainerStarted(container.clone()));
        }
        let ghost repos = self@.repositories;
        let mut seen: Vec<Container> = Vec::new();
        seen.push(container.clone());
        proof {
            lemma_needs_itself(repos, container@);
            assert(seen.deep_view()[0] == container@);
        }
        let mut i: usize = 0;
        while i < seen.len()
            invariant
                i <= seen.len(),
                self.wf(),
                repos == self@.repositories,
                self@.installed(container@),
                !self@.manifest_of(container@).is_resource(),
                !self@.running(container@),
                seen.len() > 0,
                seen.deep_view()[0] == container@,
                forall|k: int|
                    0 <= k < seen.len() ==> installed(repos, #[trigger] seen.deep_view()[k])
                        && needs(repos, container@, seen.deep_view()[k]),
                forall|k: int, l: int|
                    0 <= k < l < seen.len() ==> #[trigger] seen.deep_view()[k]
                        != #[trigger] seen.deep_view()[l],
                forall|k: int, id: ContainerId|
                    0 <= k < i && refers_to(repos, #[trigger] seen.deep_view()[k], id)
                        ==> #[trigger] seen.deep_view().contains(id),
            decreases unseen(repos, seen.deep_view()), seen.len() - i,
        {
            let ghost first = seen.deep_view();
            let ghost current = seen.deep_view()[i as int];
            // Every container of the list is installed: there is a place.
            let (rx, px) = match self.locate(&seen[i]) {
                None => {
                    return Err(Error::InvalidContainer(container.clone()));
                },
                Some(l) => l,
            };
            proof {
                lemma_location(repos, current, rx as int, px as int);
            }
            let resources = self.repositories[rx].packages[px].resources();
            let mut j: usize = 0;
            while j < resources.len()
                invariant
                    j <= resources.len(),
                    i < seen.len(),
                    self.wf(),
                    repos == self@.repositories,
                    self@.installed(container@),
                    !self@.manifest_of(container@).is_resource(),
                    !self@.running(container@),
                    seen.deep_view()[0] == container@,
                    current == seen.deep_view()[i as int],
                    installed(repos, current),
                    resources.deep_view() == manifest_of(repos, current).resources(),
                    forall|k: int|
                        0 <= k < seen.len() ==> installed(repos, #[trigger] seen.deep_view()[k])
                            && needs(repos, container@, seen.deep_view()[k]),
                    forall|k: int, l: int|
                        0 <= k < l < seen.len() ==> #[trigger] seen.deep_view()[k]
                            != #[trigger] seen.deep_view()[l],
                    forall|k: int, id: ContainerId|
                        0 <= k < i && refers_to(repos, #[trigger] seen.deep_view()[k], id)
                            ==> #[trigger] seen.deep_view().contains(id),
                    forall|t: int|
                        0 <= t < j ==> seen.deep_view().contains(
                            #[trigger] resources.deep_view()[t],
                        ),
                    first.len() <= seen.len(),
                    unseen(repos, seen.deep_view()) <= unseen(repos, first),
                    first.len() < seen.len() ==> unseen(repos, seen.deep_view()) < unseen(
                        repos,
                        first,
                    ),
                decreases resources.len() - j,
            {
                let resource = &resources[j];
                let ghost before = seen.deep_view();
                proof {
                    assert(resources.deep_view()[j as int] == resource@);
                    assert(manifest_of(repos, current).resources().contains(resource@));
                    assert(refers_to(repos, current, resource@));
                    lemma_needs_step(repos, container@, current, resource@);
                }
                if !listed(&seen, resource) {
                    if self.locate(resource).is_none() {
                        return Err(
                            Error::StartContainerMissingResource(
                                container.clone(),
                                resource.clone(),
                            ),
                        );
                    }
                    seen.push(resource.clone());
                    proof {
                        let after = seen.deep_view();
                        assert(after =~= before.push(resource@));
                        lemma_unseen_push(repos, before, resource@);
                        assert forall|id: ContainerId| before.contains(id) implies after.contains(
                            id,
                        ) by {
                            lemma_contains_push(before, resource@, id);
                        }
                        lemma_contains_push(before, resource@, resource@);
                        assert forall|k: int, l: int| 0 <= k < l < after.len() implies after[k]
                            != after[l] by {
                            if l == before.len() {
                                assert(before.contains(before[k]));
                            }
                        }
                        assert forall|k: int, id: ContainerId|
                            0 <= k < i && refers_to(repos, #[trigger] after[k], id) implies #[trigger] after.contains(
                            id,
                        ) by {
                            assert(refers_to(repos, before[k], id));
                            assert(before.contains(id));
                        }
                        assert forall|t: int| 0 <= t < j + 1 implies after.contains(
                            #[trigger] resources.deep_view()[t],
                        ) by {
                            if t < j {
                                assert(before.contains(resources.deep_view()[t]));
                            }
                        }
                    }
                }
                j += 1;
            }
            proof {
                let now = seen.deep_view();
                assert forall|k: int, id: ContainerId|
                    0 <= k < i + 1 && refers_to(repos, #[trigger] now[k], id) implies #[trigger] now.contains(
                    id,
                ) by {
                    if k == i {
                        let res = resources.deep_view();
                        let t = choose|t: int| 0 <= t < res.len() && res[t] == id;
                        assert(now.contains(res[t]));
                    }
                }
            }
            i += 1;
        }
        proof {
            let all = seen.deep_view();
            assert(all.contains(container@));
            assert forall|id: ContainerId| needs(repos, container@, id) implies all.contains(
                id,
            ) && installed(repos, id) by {
                let path = choose|path: Seq<ContainerId>| #[trigger]
                    chain(repos, path) && path[0] == container@ && path.last() == id;
                lemma_closed(repos, all, container@, path, path.len() - 1);
                let k = choose|k: int| 0 <= k < all.len() && all[k] == id;
                assert(installed(repos, all[k]));
            }
        }
        let mut plan: Vec<MountRequest> = Vec::new();
        let ghost mut origin: Seq<int> = Seq::empty();
        let mut k: usize = 0;
        while k < seen.len()
            invariant
                k <= seen.len(),
                self.wf(),
                repos == self@.repositories,
                forall|l: int|
                    0 <= l < seen.len() ==> installed(repos, #[trigger] seen.deep_view()[l]),
                origin.len() == plan.len(),
                forall|m: int|
                    0 <= m < plan.len() ==> 0 <= #[trigger] origin[m] < k && plan[m].container@
                        == seen.deep_view()[origin[m]] && !mounted(
                        self@.containers,
                        plan[m].container@,
                    ) && plan[m]@ == self@.request_for(plan[m].container@),
                forall|m: int, n: int| 0 <= m < n < plan.len() ==> origin[m] < origin[n],
                forall|l: int|
                    0 <= l < k && !mounted(self@.containers, #[trigger] seen.deep_view()[l])
                        ==> planned(plan@, seen.deep_view()[l]),
                k > 0 && !mounted(self@.containers, seen.deep_view()[0]) ==> plan.len() > 0
                    && origin[0] == 0,
            decreases seen.len() - k,
        {
            if !self.is_mounted(&seen[k]) {
                assert(installed(repos, seen.deep_view()[k as int]));
                // The container is installed: there is a request.
                match self.mount(&seen[k]) {
                    Ok(request) => {
                        let ghost before = plan@;
                        plan.push(request);
                        proof {
                            origin = origin.push(k as int);
                            assert forall|l: int|
                                0 <= l < k + 1 && !mounted(
                                    self@.containers,
                                    #[trigger] seen.deep_view()[l],
                                ) implies planned(plan@, seen.deep_view()[l]) by {
                                if l < k {
                                    let m = choose|m: int|
                                        0 <= m < before.len() && (#[trigger] before[m]).container@
                                            == seen.deep_view()[l];
                                    assert(plan@[m].container@ == seen.deep_view()[l]);
                                } else {
                                    assert(plan@[before.len() as int].container@
                                        == seen.deep_view()[l]);
                                }
                            }
                        }
                    },
                    Err(e) => {
                        return Err(e);
                    },
                }
            }
            k += 1;
        }
        proof {
            let all = seen.deep_view();
            assert forall|id: ContainerId| #[trigger]
                planned(plan@, id) <==> needs(repos, container@, id) && !mounted(
                    self@.containers,
                    id,
                ) by {
                if planned(plan@, id) {
                    let m = choose|m: int|
                        0 <= m < plan.len() && (#[trigger] plan@[m]).container@ == id;
                    assert(needs(repos, container@, all[origin[m]]));
                }
                if needs(repos, container@, id) && !mounted(self@.containers, id) {
                    assert(all.contains(id));
                    let l = choose|l: int| 0 <= l < all.len() && all[l] == id;
                    assert(planned(plan@, all[l]));
                }
            }
            assert forall|m: int, n: int| 0 <= m < n < plan.len() implies (
            #[trigger] plan[m]).container@ != (#[trigger] plan[n]).container@ by {
                assert(origin[m] < origin[n]);
                assert(all[origin[m]] != all[origin[n]]);
            }
        }
        assert forall|i: int| 0 <= i < plan.len() implies (#[trigger] plan[i])@
            == self@.request_for(plan[i].container@) by {
            assert(0 <= origin[i]);
        }
        assert(!mounted(self@.containers, container@) ==> plan.len() > 0 && plan[0].container@
            == container@) by {
            if !mounted(self@.containers, container@) {
                assert(origin[0] == 0);
            }
        }
        assert(self@.start_plan(container@, plan@));
        Ok(plan)
    }
}

impl State {
    /// Gives the mounted container at place `k` this process, or none.
    fn set_process(&mut self, k: usize, process: Option<ProcessContext>)
        requires
            k < old(self).containers.len(),
        ensures
            final(self).now == old(self).now,
            final(self)@.run_dir == old(self)@.run_dir,
            final(self)@.repositories == old(self)@.repositories,
            final(self)@.containers == old(self)@.containers.update(
                k as int,
                MountedView { process, ..old(self)@.containers[k as int] },
            ),
    {
        let ghost before = self@.containers;
        let mut entry = self.containers.remove(k);
        entry.process = process;
        self.containers.insert(k, entry);
        assert(self@.containers =~= before.update(
            k as int,
            MountedView { process, ..before[k as int] },
        ));
    }

    /// Records that the process of `container` was launched with this
    /// process id, and whether it has a control group. The container
    /// must be a mounted application that does not run, and what it
    /// refers to must be mounted. The clock is told `now`, and the
    /// process counts as started at the clock's instant.
    pub fn started(&mut self, container: &Container, pid: Pid, cgroups: bool, now: u64) -> (r:
        Result<Notification, Error>)
        requires
            old(self).wf(),
        ensures
            final(self).wf(),
            final(self).clock() == if now > old(self).clock() {
                now
            } else {
                old(self).clock()
            },
            match r {
                Ok(n) => {
                    &&& old(self)@.mounted(container@)
                    &&& !old(self)@.manifest_of(container@).is_resource()
                    &&& !old(self)@.running(container@)
                    &&& all_mounted(
                        old(self)@.containers,
                        old(self)@.manifest_of(container@).resources(),
                    )
                    &&& final(self)@ == old(self)@.set_process(
                        container@,
                        Some(ProcessContext { pid, started: final(self).clock(), cgroups }),
                    )
                    &&& n == Notification::Started(*container)
                },
                Err(Error::StartContainerFailed(c, reason)) => {
                    &&& !old(self)@.mounted(container@)
                    &&& c == *container
                    &&& reason@ == "Not mounted"@
                    &&& final(self)@ == old(self)@
                },
                Err(Error::StartContainerResource(c)) => {
                    &&& old(self)@.mounted(container@)
                    &&& old(self)@.manifest_of(container@).is_resource()
                    &&& c == *container
                    &&& final(self)@ == old(self)@
                },
                Err(Error::StartContainerStarted(c)) => {
                    &&& old(self)@.running(container@)
                    &&& c == *container
                    &&& final(self)@ == old(self)@
                },
                Err(Error::StartContainerMissingResource(c, resource)) => {
                    &&& old(self)@.mounted(container@)
                    &&& !old(self)@.manifest_of(container@).is_resource()
                    &&& !old(self)@.running(container@)
                    &&& first_unmounted(
                        old(self)@.containers,
                        old(self)@.manifest_of(container@).resources(),
                    ) == Some(resource@)
                    &&& c == *container
                    &&& final(self)@ == old(self)@
                },
                Err(_) => false,
            },
    {
        self.advance(now);
        let k = match self.position(container) {
            None => {
                return Err(
                    Error::StartContainerFailed(container.clone(), String::from_str("Not mounted")),
                );
            },
            Some(k) => k,
        };
        proof {
            lemma_index(self@.containers, container@, k as int);
            lemma_running_index(self@.containers, container@, k as int);
            assert(self@.entry_wf(self@.containers[k as int]));
        }
        if self.containers[k].manifest.is_resource() {
            return Err(Error::StartContainerResource(container.clone()));
        }
        if self.containers[k].process.is_some() {
            return Err(Error::StartContainerStarted(container.clone()));
        }
        let resources = self.containers[k].manifest.resources();
        let mut i: usize = 0;
        while i < resources.len()
            invariant
                i <= resources.len(),
                self.wf(),
                self@ == old(self)@,
                self.clock() == if now > old(self).clock() {
                    now
                } else {
                    old(self).clock()
                },
                self@.mounted(container@),
                !self@.manifest_of(container@).is_resource(),
                !self@.running(container@),
                resources.deep_view() == self@.manifest_of(container@).resources(),
                first_unmounted(self@.containers, resources.deep_view().take(i as int)) is None,
            decreases resources.len() - i,
        {
            proof {
                assert(resources.deep_view().take(i + 1).drop_last() =~= resources.deep_view().take(
                    i as int,
                ));
                assert(resources.deep_view().take(i + 1).last() == resources[i as int]@);
            }
            if !self.is_mounted(&resources[i]) {
                proof {
                    lemma_first_unmounted_prefix(
                        self@.containers,
                        resources.deep_view().take(i + 1),
                        resources.deep_view(),
                    );
                }
                return Err(
                    Error::StartContainerMissingResource(container.clone(), resources[i].clone()),
                );
            }
            i += 1;
        }
        let ghost before = self@;
        let process = ProcessContext { pid, started: self.now, cgroups };
        proof {
            assert(resources.deep_view().take(i as int) =~= resources.deep_view());
            lemma_first_unmounted_none(before.containers, resources.deep_view());
            lemma_set_process_wf(before, container@, Some(process));
        }
        self.set_process(k, Some(process));
        Ok(Notification::Started(container.clone()))
    }

    /// Takes the process away from `container`, which must run, and says
    /// how to end it.
    pub fn stop(&mut self, container: &Container, timeout: u64) -> (r: Result<Termination, Error>)
        requires
            old(self).wf(),
        ensures
            final(self).wf(),
            final(self).clock() == old(self).clock(),
            old(self)@.stop_decision(final(self)@, *container, timeout, r),
    {
        match self.take_process(container) {
            Some(process) => Ok(
                Termination {
                    container: container.clone(),
                    process,
                    timeout,
                    notification: Notification::Stopped(container.clone()),
                },
            ),
            None => Err(Error::StopContainerNotStarted(container.clone())),
        }
    }

    /// Takes the process away from `container`, if it has one.
    fn take_process(&mut self, container: &Container) -> (r: Option<ProcessContext>)
        requires
            old(self).wf(),
        ensures
            final(self).wf(),
            final(self).clock() == old(self).clock(),
            match r {
                Some(process) => {
                    &&& old(self)@.running(container@)
                    &&& Some(process) == old(self)@.containers[index(
                        old(self)@.containers,
                        container@,
                    )].process
                    &&& final(self)@ == old(self)@.set_process(container@, None)
                },
                None => !old(self)@.running(container@) && final(self)@ == old(self)@,
            },
    {
        let k = match self.position(container) {
            None => {
                return None;
            },
            Some(k) => k,
        };
        proof {
            lemma_index(self@.containers, container@, k as int);
            lemma_running_index(self@.containers, container@, k as int);
        }
        match self.containers[k].process {
            None => None,
            Some(process) => {
                proof {
                    lemma_set_process_wf(self@, container@, None);
                }
                self.set_process(k, None);
                Some(process)
            },
        }
    }

    /// Records that the process of `container` has ended by itself. If
    /// the container runs, its process is taken away and released, and
    /// the exit is to be published. Otherwise nothing happens.
    pub fn on_exit(&mut self, container: &Container, status: crate::model::ExitStatus) -> (r:
        Option<(ProcessContext, Notification)>)
        requires
            old(self).wf(),
        ensures
            final(self).wf(),
            final(self).clock() == old(self).clock(),
            match r {
                Some((process, n)) => {
                    &&& old(self)@.running(container@)
                    &&& Some(process) == old(self)@.containers[index(
                        old(self)@.containers,
                        container@,
                    )].process
                    &&& final(self)@ == old(self)@.set_process(container@, None)
                    &&& n == (Notification::Exit { container: *container, status })
                },
                None => !old(self)@.running(container@) && final(self)@ == old(self)@,
            },
    {
        match self.take_process(container) {
            Some(process) => Some(
                (process, Notification::Exit { container: container.clone(), status }),
            ),
            None => None,
        }
    }

    /// Records that `container` is out of memory. If it runs, this is to
    /// be published and the container stopped, with the grace period as
    /// its timeout. Otherwise nothing happens.
    pub fn on_oom(&mut self, container: &Container) -> (r: Option<(Notification, Termination)>)
        requires
            old(self).wf(),
        ensures
            final(self).wf(),
            final(self).clock() == old(self).clock(),
            match r {
                Some((n, t)) => {
                    &&& old(self)@.running(container@)
                    &&& n == Notification::OutOfMemory(*container)
                    &&& old(self)@.containers[index(old(self)@.containers, container@)].ends(
                        t,
                        GRACE_PERIOD,
                    )
                    &&& t.container == *container
                    &&& final(self)@ == old(self)@.set_process(container@, None)
                },
                None => !old(self)@.running(container@) && final(self)@ == old(self)@,
            },
    {
        match self.stop(container, GRACE_PERIOD) {
            Ok(t) => Some((Notification::OutOfMemory(container.clone()), t)),
            Err(_) => None,
        }
    }

    /// Removes the package of `container` from its repository, after
    /// taking the container out of the mounted ones. A container that
    /// runs, or that a running application uses, stays.
    pub fn uninstall(&mut self, container: &Container) -> (r: Result<
        (Option<Umount>, Notification),
        Error,
    >)
        requires
            old(self).wf(),
        ensures
            final(self).wf(),
            final(self).clock() == old(self).clock(),
            old(self)@.uninstall_decision(final(self)@, *container, r),
    {
        let (r, p) = match self.locate(container) {
            None => {
                return Err(Error::InvalidContainer(container.clone()));
            },
            Some(l) => l,
        };
        let ghost before = self@;
        let umount = match self.umount(container) {
            Err(e) => {
                return Err(e);
            },
            Ok(u) => u,
        };
        let ghost middle = self@;
        proof {
            lemma_location(before.repositories, container@, r as int, p as int);
            if before.mounted(container@) {
                lemma_mounted_remove(
                    before.containers,
                    index(before.containers, container@),
                    container@,
                );
            }
            assert(!middle.mounted(container@));
            lemma_remove_package_wf(middle, container@);
            if before.busy(container@) && !before.mounted(container@) {
                let k = choose|k: int|
                    0 <= k < before.containers.len() && (#[trigger] before.containers[k]).process is Some
                        && before.containers[k].manifest.resources().contains(container@);
                assert(before.entry_wf(before.containers[k]));
                let res = before.containers[k].manifest.resources();
                let j = choose|j: int| 0 <= j < res.len() && res[j] == container@;
                assert(mounted(before.containers, res[j]));
            }
        }
        let ghost packages = self.repositories[r as int].packages.deep_view();
        let mut repo = self.repositories.remove(r);
        repo.packages.remove(p);
        assert(repo.packages.deep_view() =~= packages.remove(p as int));
        self.repositories.insert(r, repo);
        assert(self@.repositories =~= middle.remove_package(container@).repositories);
        assert(self@.containers == middle.containers);
        Ok((umount, Notification::Uninstalled(container.name.clone(), container.version)))
    }

    /// Ends the engine. Says how to end every running container, each
    /// with the grace period as its timeout, and then what to unmount:
    /// every mounted container.
    pub fn shutdown(self) -> (r: (Vec<Termination>, Vec<Umount>))
        requires
            self.wf(),
        ensures
            r.0.len() == running_ones(self@.containers).len(),
            forall|i: int|
                0 <= i < r.0.len() ==> running_ones(self@.containers)[i].ends(
                    #[trigger] r.0[i],
                    GRACE_PERIOD,
                ),
            r.1.len() == self@.containers.len(),
            forall|i: int|
                0 <= i < r.1.len() ==> (#[trigger] r.1[i])@ == self@.containers[i].teardown(),
    {
        let mut stops: Vec<Termination> = Vec::new();
        let mut umounts: Vec<Umount> = Vec::new();
        let mut k: usize = 0;
        while k < self.containers.len()
            invariant
                k <= self.containers.len(),
                stops.len() == running_ones(self@.containers.take(k as int)).len(),
                forall|i: int|
                    0 <= i < stops.len() ==> running_ones(self@.containers.take(k as int))[i].ends(
                        #[trigger] stops[i],
                        GRACE_PERIOD,
                    ),
                umounts.len() == k,
                forall|i: int|
                    0 <= i < k ==> (#[trigger] umounts[i])@ == self@.containers[i].teardown(),
            decreases self.containers.len() - k,
        {
            let entry = &self.containers[k];
            proof {
                assert(self@.containers.take(k + 1).drop_last() =~= self@.containers.take(k as int));
                assert(self@.containers.take(k + 1).last() == entry@);
            }
            if let Some(process) = entry.process {
                stops.push(
                    Termination {
                        container: entry.container.clone(),
                        process,
                        timeout: GRACE_PERIOD,
                        notification: Notification::Stopped(entry.container.clone()),
                    },
                );
            }
            umounts.push(entry.teardown());
            k += 1;
        }
        assert(self@.containers.take(k as int) =~= self@.containers);
        (stops, umounts)
    }
}

impl State {
    /// Records the outcome of the mounts that a start asked for. If
    /// every mount was made, all of them are recorded. If one failed,
    /// none is recorded: the result is the first failure, and what it
    /// takes to undo the mounts that were made.
    pub fn mounted_all(&mut self, outcomes: &Vec<MountOutcome>) -> (r: Result<
        (),
        (Error, Vec<Umount>),
    >)
        requires
            old(self).wf(),
        ensures
            final(self).wf(),
            final(self).clock() == old(self).clock(),
            match r {
                Ok(()) => {
                    &&& old(self)@.first_failure(outcomes@) is None
                    &&& final(self)@ == old(self)@.apply_mounts(outcomes@)
                },
                Err((e, undo)) => {
                    &&& old(self)@.first_failure(outcomes@) matches Some(i) && 0 <= i
                        < outcomes.len() && match outcomes[i].1 {
                        Err(description) => e matches Error::Mount(text) && text@ == description@,
                        Ok(_) => e == Error::InvalidContainer(outcomes[i].0.container),
                    }
                    &&& undo.deep_view() == rollbacks(outcomes@)
                    &&& final(self)@ == old(self)@
                },
            },
    {
        let mut failure: Option<Error> = None;
        let mut i: usize = 0;
        while i < outcomes.len() && failure.is_none()
            invariant
                i <= outcomes.len(),
                self@ == old(self)@,
                self.wf(),
                self.clock() == old(self).clock(),
                match failure {
                    None => self@.first_failure(outcomes@.take(i as int)) is None,
                    Some(e) => self@.first_failure(outcomes@.take(i as int)) matches Some(k) && k
                        == i - 1 && match outcomes[k].1 {
                        Err(description) => e matches Error::Mount(text) && text@ == description@,
                        Ok(_) => e == Error::InvalidContainer(outcomes[k].0.container),
                    },
                },
            decreases outcomes.len() - i,
        {
            proof {
                assert(outcomes@.take(i + 1).drop_last() =~= outcomes@.take(i as int));
                assert(outcomes@.take(i + 1).last() == outcomes@[i as int]);
            }
            match &outcomes[i].1 {
                Err(description) => {
                    failure = Some(Error::Mount(description.clone()));
                },
                Ok(_) => {
                    if self.locate(&outcomes[i].0.container).is_none() {
                        failure = Some(Error::InvalidContainer(outcomes[i].0.container.clone()));
                    }
                },
            }
            i += 1;
        }
        match failure {
            Some(e) => {
                proof {
                    lemma_first_failure_prefix(self@, outcomes@.take(i as int), outcomes@);
                }
                let mut undo: Vec<Umount> = Vec::new();
                let mut j: usize = 0;
                while j < outcomes.len()
                    invariant
                        j <= outcomes.len(),
                        undo.deep_view() == rollbacks(outcomes@.take(j as int)),
                    decreases outcomes.len() - j,
                {
                    let ghost before = undo.deep_view();
                    proof {
                        assert(outcomes@.take(j + 1).drop_last() =~= outcomes@.take(j as int));
                        assert(outcomes@.take(j + 1).last() == outcomes@[j as int]);
                    }
                    if let Ok(device) = &outcomes[j].1 {
                        let request = &outcomes[j].0;
                        undo.push(
                            Umount {
                                container: request.container.clone(),
                                root: request.root.clone(),
                                verity: if request.verity {
                                    Some(device.clone())
                                } else {
                                    None
                                },
                            },
                        );
                        assert(undo.deep_view() =~= before.push(undo_of(request@, device@)));
                    }
                    j += 1;
                }
                assert(outcomes@.take(j as int) =~= outcomes@);
                Err((e, undo))
            },
            None => {
                assert(outcomes@.take(i as int) =~= outcomes@);
                let mut j: usize = 0;
                while j < outcomes.len()
                    invariant
                        j <= outcomes.len(),
                        self.wf(),
                        self.clock() == old(self).clock(),
                        self@.repositories == old(self)@.repositories,
                        old(self)@.first_failure(outcomes@) is None,
                        self@ == old(self)@.apply_mounts(outcomes@.take(j as int)),
                    decreases outcomes.len() - j,
                {
                    proof {
                        assert(outcomes@.take(j + 1).drop_last() =~= outcomes@.take(j as int));
                        assert(outcomes@.take(j + 1).last() == outcomes@[j as int]);
                        lemma_no_failure(old(self)@, outcomes@, j as int);
                    }
                    if let Ok(device) = &outcomes[j].1 {
                        let recorded = self.mounted(&outcomes[j].0.container, device.clone());
                        assert(recorded is Ok);
                    }
                    j += 1;
                }
                assert(outcomes@.take(j as int) =~= outcomes@);
                Ok(())
            },
        }
    }

    /// Unmounts each container of the list that is mounted, does not run
    /// and is not in use, and says what to unmount.
    pub fn rollback(&mut self, containers: &Vec<Container>) -> (undo: Vec<Umount>)
        requires
            old(self).wf(),
        ensures
            final(self).wf(),
            final(self).clock() == old(self).clock(),
            final(self)@ == old(self)@.unmount_all(containers.deep_view()).0,
            undo.deep_view() == old(self)@.unmount_all(containers.deep_view()).1,
    {
        let mut undo: Vec<Umount> = Vec::new();
        let mut i: usize = 0;
        while i < containers.len()
            invariant
                i <= containers.len(),
                self.wf(),
                self.clock() == old(self).clock(),
                self@ == old(self)@.unmount_all(containers.deep_view().take(i as int)).0,
                undo.deep_view() == old(self)@.unmount_all(containers.deep_view().take(i as int)).1,
            decreases containers.len() - i,
        {
            let ghost before = undo.deep_view();
            proof {
                assert(containers.deep_view().take(i + 1).drop_last()
                    =~= containers.deep_view().take(i as int));
                assert(containers.deep_view().take(i + 1).last() == containers[i as int]@);
            }
            match self.umount(&containers[i]) {
                Ok(Some(u)) => {
                    undo.push(u);
                    assert(undo.deep_view() =~= before.push(u@));
                },
                _ => {},
            }
            i += 1;
        }
        assert(containers.deep_view().take(i as int) =~= containers.deep_view());
        undo
    }

    /// Gives up the start of `container` after its mounts were made: the
    /// containers that were mounted for it are unmounted again, so that
    /// no mount is left of the attempt. The result is the error to
    /// report and what to unmount.
    pub fn start_failed(&mut self, container: &Container, mounts: &Vec<Container>, reason: String) -> (r:
        (Error, Vec<Umount>))
        requires
            old(self).wf(),
        ensures
            final(self).wf(),
            final(self).clock() == old(self).clock(),
            r.0 == Error::StartContainerFailed(*container, reason),
            final(self)@ == old(self)@.unmount_all(mounts.deep_view()).0,
            r.1.deep_view() == old(self)@.unmount_all(mounts.deep_view()).1,
    {
        let undo = self.rollback(mounts);
        (Error::StartContainerFailed(container.clone(), reason), undo)
    }
}

/// What the engine makes of a request: what it has decided, and with it
/// what is to be done outside the engine.
#[derive(Debug, PartialEq, Eq)]
pub enum Command {
    /// The answer to the request.
    Respond(Response),
    /// Whether to read from the stream the package that is to be
    /// installed. It is then handed to `install`.
    Install(RepositoryId, u64, Result<(), Error>),
    /// For each container of the request what to mount, if anything. The
    /// outcomes are handed to `mount_result`, one by one.
    Mount(Vec<(Container, Option<MountRequest>)>),
    /// Whether to start the container, and what to mount first.
    Start(Container, Result<Vec<MountRequest>, Error>),
    /// Whether to stop the container, and how.
    Stop(Container, Result<Termination, Error>),
    /// Whether to unmount the container, and what.
    Umount(Container, Result<Option<Umount>, Error>),
    /// Whether the container's package is to be deleted, and what is to
    /// be unmounted before.
    Uninstall(Container, Result<(Option<Umount>, Notification), Error>),
    /// Shut the runtime down.
    Shutdown,
}

/// The answer to a request that has succeeded or failed.
pub fn respond(result: Result<(), Error>) -> (r: Response)
    ensures
        match result {
            Ok(()) => r == Response::Success,
            Err(e) => r matches Response::Failure(reported) && crate::error::reports(e, reported),
        },
{
    match result {
        Ok(()) => Response::Success,
        Err(e) => Response::Failure(crate::model::Error::from(e)),
    }
}

impl State {
    /// The list of the installed packages, each with its repository,
    /// whether it is mounted, and its process if it runs. The memory of
    /// a process is not the engine's to know.
    pub fn list_containers(&self) -> (list: Vec<ContainerData>)
        requires
            self.wf(),
        ensures
            list.deep_view() == self@.listing(self.clock(), self@.repositories.len() as int),
    {
        let mut list: Vec<ContainerData> = Vec::new();
        let mut r: usize = 0;
        assert(list.deep_view() =~= self@.listing(self.clock(), 0));
        while r < self.repositories.len()
            invariant
                r <= self.repositories.len(),
                self.wf(),
                list.deep_view() == self@.listing(self.clock(), r as int),
            decreases self.repositories.len() - r,
        {
            let repository = &self.repositories[r];
            let ghost done = list.deep_view();
            let mut p: usize = 0;
            assert(list.deep_view() =~= done + self@.lines(self.clock(), r as int).take(0));
            while p < repository.packages.len()
                invariant
                    p <= repository.packages.len(),
                    r < self.repositories.len(),
                    repository == &self.repositories[r as int],
                    self.wf(),
                    list.deep_view() == done + self@.lines(self.clock(), r as int).take(p as int),
                decreases repository.packages.len() - p,
            {
                let manifest = &repository.packages[p];
                let container = manifest.container();
                let ghost before = list.deep_view();
                assert(self@.repositories[r as int].packages[p as int] == manifest@);
                let (process, mounted) = match self.position(&container) {
                    Some(k) => {
                        proof {
                            lemma_index(self@.containers, container@, k as int);
                            assert(match self@.containers[k as int].process {
                                Some(process) => process.started <= self.clock(),
                                None => true,
                            });
                        }
                        let process = match self.containers[k].process {
                            Some(context) => Some(
                                Process {
                                    pid: context.pid,
                                    uptime: self.now - context.started,
                                    resources: Resources { memory: None },
                                },
                            ),
                            None => None,
                        };
                        (process, true)
                    },
                    None => (None, false),
                };
                let data = ContainerData::new(
                    container,
                    repository.id.clone(),
                    manifest.clone(),
                    process,
                    mounted,
                );
                assert(data@ == self@.line(self.clock(), r as int, p as int));
                list.push(data);
                proof {
                    let lines = self@.lines(self.clock(), r as int);
                    assert(list.deep_view() =~= before.push(data@));
                    assert(lines.take(p + 1) =~= lines.take(p as int).push(lines[p as int]));
                    assert(list.deep_view() =~= done + lines.take(p + 1));
                }
                p += 1;
            }
            assert(self@.lines(self.clock(), r as int).take(p as int) =~= self@.lines(
                self.clock(),
                r as int,
            ));
            r += 1;
        }
        list
    }

    /// The labels of the repositories.
    pub fn list_repositories(&self) -> (list: Vec<RepositoryId>)
        ensures
            list.deep_view() == self@.labels(),
    {
        let mut list: Vec<RepositoryId> = Vec::new();
        let mut r: usize = 0;
        while r < self.repositories.len()
            invariant
                r <= self.repositories.len(),
                list.len() == r,
                forall|i: int| 0 <= i < r ==> list[i]@ == self.repositories[i].id@,
            decreases self.repositories.len() - r,
        {
            list.push(self.repositories[r].id.clone());
            r += 1;
        }
        assert(list.deep_view() =~= self@.labels());
        list
    }

    /// For each container of the list, what to ask of the mount manager:
    /// a mount, if the container is installed, is not mounted and is not
    /// named earlier in the list.
    pub fn mount_plan(&self, containers: &Vec<Container>) -> (plan: Vec<
        (Container, Option<MountRequest>),
    >)
        requires
            self.wf(),
        ensures
            plan.len() == containers.len(),
            forall|i: int|
                0 <= i < plan.len() ==> (#[trigger] plan[i]).0 == containers[i] && plan[i].1.deep_view()
                    == self@.mount_step(containers.deep_view(), i),
    {
        let mut plan: Vec<(Container, Option<MountRequest>)> = Vec::new();
        let mut seen: Vec<Container> = Vec::new();
        let mut i: usize = 0;
        while i < containers.len()
            invariant
                i <= containers.len(),
                self.wf(),
                plan.len() == i,
                seen.deep_view() == containers.deep_view().take(i as int),
                forall|j: int|
                    0 <= j < i ==> (#[trigger] plan[j]).0 == containers[j] && plan[j].1.deep_view()
                        == self@.mount_step(containers.deep_view(), j),
            decreases containers.len() - i,
        {
            let container = &containers[i];
            let ghost before = seen.deep_view();
            let step = if !self.is_mounted(container) && !listed(&seen, container) {
                match self.mount(container) {
                    Ok(request) => Some(request),
                    Err(_) => None,
                }
            } else {
                None
            };
            assert(step.deep_view() == self@.mount_step(containers.deep_view(), i as int));
            plan.push((container.clone(), step));
            seen.push(container.clone());
            proof {
                let all = containers.deep_view();
                assert(seen.deep_view() =~= before.push(container@));
                assert(all.take(i + 1) =~= all.take(i as int).push(all[i as int]));
            }
            i += 1;
        }
        plan
    }

    /// Records what came of the mount of `container`, and says what to
    /// report of it. With a device, the mount is recorded. With a
    /// description, the mount has failed. With neither, no mount was
    /// asked for: the container is mounted already, or it is not
    /// installed, or the list named it before.
    pub fn mount_result(&mut self, container: &Container, outcome: Option<Result<String, String>>) -> (r:
        MountResult)
        requires
            old(self).wf(),
        ensures
            final(self).wf(),
            final(self).clock() == old(self).clock(),
            match outcome {
                Some(Ok(device)) => if old(self)@.installed(container@) {
                    &&& r == MountResult::Success
                    &&& final(self)@ == if old(self)@.mounted(container@) {
                        old(self)@
                    } else {
                        old(self)@.mount(old(self)@.entry_for(container@, device@))
                    }
                } else {
                    &&& r == MountResult::Failure(crate::model::Error::InvalidContainer(*container))
                    &&& final(self)@ == old(self)@
                },
                Some(Err(description)) => {
                    &&& r == MountResult::Failure(crate::model::Error::Mount(description))
                    &&& final(self)@ == old(self)@
                },
                None => {
                    &&& final(self)@ == old(self)@
                    &&& if old(self)@.mounted(container@) {
                        r == MountResult::Success
                    } else if !old(self)@.installed(container@) {
                        r == MountResult::Failure(
                            crate::model::Error::InvalidContainer(*container),
                        )
                    } else {
                        r matches MountResult::Failure(crate::model::Error::Mount(text)) && text@
                            == "Not mounted"@
                    }
                },
            },
    {
        match outcome {
            Some(Ok(device)) => match self.mounted(container, device) {
                Ok(()) => MountResult::Success,
                Err(e) => MountResult::Failure(crate::model::Error::from(e)),
            },
            Some(Err(description)) => MountResult::Failure(crate::model::Error::Mount(description)),
            None => {
                if self.is_mounted(container) {
                    MountResult::Success
                } else if self.locate(container).is_none() {
                    MountResult::Failure(crate::model::Error::InvalidContainer(container.clone()))
                } else {
                    MountResult::Failure(
                        crate::model::Error::Mount(String::from_str("Not mounted")),
                    )
                }
            },
        }
    }

    /// Decides on a client's request. What can be answered from the
    /// state alone is answered. For the rest the result says what was
    /// decided, and with it what is to be done outside the engine.
    pub fn console_request(&mut self, request: &Request, now: u64) -> (r: Command)
        requires
            old(self).wf(),
        ensures
            final(self).wf(),
            final(self).clock() == if now > old(self).clock() {
                now
            } else {
                old(self).clock()
            },
            match *request {
                Request::Containers => {
                    &&& r matches Command::Respond(Response::Containers(list))
                        && list.deep_view() == old(self)@.listing(
                        final(self).clock(),
                        old(self)@.repositories.len() as int,
                    )
                    &&& final(self)@ == old(self)@
                },
                Request::Repositories => {
                    &&& r matches Command::Respond(Response::Repositories(list))
                        && list.deep_view() == old(self)@.labels()
                    &&& final(self)@ == old(self)@
                },
                Request::Install(repository, size) => {
                    &&& r matches Command::Install(label, bytes, decision) && label == repository
                        && bytes == size && old(self)@.install_decision(
                        repository@,
                        size,
                        decision,
                    )
                    &&& final(self)@ == old(self)@
                },
                Request::Mount(containers) => {
                    &&& r matches Command::Mount(plan) && plan.len() == containers.len() && (
                    forall|i: int|
                        0 <= i < plan.len() ==> (#[trigger] plan[i]).0 == containers[i]
                            && plan[i].1.deep_view() == old(self)@.mount_step(
                            containers.deep_view(),
                            i,
                        ))
                    &&& final(self)@ == old(self)@
                },
                Request::Shutdown => r == Command::Shutdown && final(self)@ == old(self)@,
                Request::Start(container) => {
                    &&& r matches Command::Start(c, decision) && c == container
                        && old(self)@.start_decision(container, decision)
                    &&& final(self)@ == old(self)@
                },
                Request::Stop(container, timeout) => r matches Command::Stop(c, decision) && c
                    == container && old(self)@.stop_decision(
                    final(self)@,
                    container,
                    timeout,
                    decision,
                ),
                Request::Umount(container) => r matches Command::Umount(c, decision) && c
                    == container && old(self)@.umount_decision(final(self)@, container, decision),
                Request::Uninstall(container) => r matches Command::Uninstall(c, decision) && c
                    == container && old(self)@.uninstall_decision(
                    final(self)@,
                    container,
                    decision,
                ),
            },
    {
        self.advance(now);
        match request {
            Request::Containers => Command::Respond(Response::Containers(self.list_containers())),
            Request::Repositories => Command::Respond(
                Response::Repositories(self.list_repositories()),
            ),
            Request::Install(repository, size) => {
                let decision = self.install_check(repository.as_str(), *size);
                Command::Install(repository.clone(), *size, decision)
            },
            Request::Mount(containers) => Command::Mount(self.mount_plan(containers)),
            Request::Shutdown => Command::Shutdown,
            Request::Start(container) => {
                let decision = self.start(container);
                Command::Start(container.clone(), decision)
            },
            Request::Stop(container, timeout) => {
                let decision = self.stop(container, *timeout);
                Command::Stop(container.clone(), decision)
            },
            Request::Umount(container) => {
                let decision = self.umount(container);
                Command::Umount(container.clone(), decision)
            },
            Request::Uninstall(container) => {
                let decision = self.uninstall(container);
                Command::Uninstall(container.clone(), decision)
            },
        }
    }
}

/// In a well-formed engine no process was started after the clock's
/// instant.
pub proof fn lemma_started_in_the_past(state: State, k: int)
    requires
        state.wf(),
        0 <= k < state@.containers.len(),
        state@.containers[k].process is Some,
    ensures
        state@.containers[k].process->0.started <= state.clock(),
{
}

} // verus!
