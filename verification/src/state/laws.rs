//! What holds of the engine's states: that the operations keep a state
//! well formed, and that they undo each other.

use crate::model::{Container, ContainerId, ManifestView};
use crate::state::types::{
    MountOutcome, MountRequest, MountedView, ProcessContext, RepositoryView,
};
use crate::state::view::{
    StateView, all_made, all_mounted, busy, chain, containers_distinct, containers_of,
    entries_of, first_unmounted, holds, index, installed, known, labels_distinct, location,
    manifest_of, mount_point, mounted, needs, package, packages_distinct, packages_valid, planned,
    refers_to,
    repository_index, running, unseen, unseen_packages, verified,
};
use vstd::prelude::*;

verus! {

/// Where a container of this identity is mounted, it is at place `k`.
pub(crate) proof fn lemma_index(containers: Seq<MountedView>, id: ContainerId, k: int)
    requires
        containers_distinct(containers),
        0 <= k < containers.len(),
        containers[k].container == id,
    ensures
        mounted(containers, id),
        index(containers, id) == k,
{
    let j = index(containers, id);
    if j < k {
        assert(containers[j].container != containers[k].container);
    } else if k < j {
        assert(containers[k].container != containers[j].container);
    }
}

/// Where a package of this identity is installed, it is package `p` of
/// repository `r`.
pub(crate) proof fn lemma_location(repositories: Seq<RepositoryView>, id: ContainerId, r: int, p: int)
    requires
        packages_distinct(repositories),
        holds(repositories, r, p),
        package(repositories, r, p).id() == id,
    ensures
        installed(repositories, id),
        location(repositories, id) == (r, p),
{
    let (q, t) = location(repositories, id);
    assert(holds(repositories, q, t) && package(repositories, q, t).id() == id);
    if q != r || t != p {
        assert(package(repositories, r, p).id() != package(repositories, q, t).id());
    }
}

/// The repository of this label is at place `r`.
pub(crate) proof fn lemma_repository_index(repositories: Seq<RepositoryView>, label: Seq<char>, r: int)
    requires
        labels_distinct(repositories),
        0 <= r < repositories.len(),
        repositories[r].id == label,
    ensures
        known(repositories, label),
        repository_index(repositories, label) == r,
{
    let q = repository_index(repositories, label);
    if q < r {
        assert(repositories[q].id != repositories[r].id);
    } else if r < q {
        assert(repositories[r].id != repositories[q].id);
    }
}

/// Mounting a container that was not mounted, and unmounting it, leaves
/// the state as it was.
pub proof fn lemma_mount_umount(s: StateView, e: MountedView)
    requires
        s.wf(),
        !s.mounted(e.container),
    ensures
        s.mount(e).umount(e.container) == s,
{
    let t = s.mount(e);
    assert forall|k: int, l: int| 0 <= k < l < t.containers.len() implies (
    #[trigger] t.containers[k]).container != (#[trigger] t.containers[l]).container by {
        if l < s.containers.len() {
            assert(s.containers[k].container != s.containers[l].container);
        } else {
            assert(s.containers[k].container != e.container);
        }
    }
    lemma_index(t.containers, e.container, s.containers.len() as int);
    assert(t.containers.remove(s.containers.len() as int) =~= s.containers);
}

/// Starting a mounted container that does not run, and stopping it,
/// leaves the state as it was after the mount.
pub proof fn lemma_start_stop(s: StateView, id: ContainerId, process: ProcessContext)
    requires
        s.wf(),
        s.mounted(id),
        !s.running(id),
    ensures
        s.set_process(id, Some(process)).set_process(id, None) == s,
{
    let k = index(s.containers, id);
    let t = s.set_process(id, Some(process));
    assert(s.containers[k].process is None);
    assert forall|i: int, j: int| 0 <= i < j < t.containers.len() implies (
    #[trigger] t.containers[i]).container != (#[trigger] t.containers[j]).container by {
        assert(s.containers[i].container != s.containers[j].container);
    }
    lemma_index(t.containers, id, k);
    assert(t.set_process(id, None).containers =~= s.containers);
}

/// Installing a package whose identity is new, and uninstalling it,
/// leaves the state as it was.
pub proof fn lemma_install_uninstall(s: StateView, r: int, manifest: ManifestView)
    requires
        s.wf(),
        0 <= r < s.repositories.len(),
        !s.installed(manifest.id()),
    ensures
        s.install(r, manifest).uninstall(manifest.id()) == s,
{
    let id = manifest.id();
    let t = s.install(r, manifest);
    let p = s.repositories[r].packages.len() as int;
    if mounted(s.containers, id) {
        let k = index(s.containers, id);
        assert(s.entry_wf(s.containers[k]));
    }
    assert(t.umount(id) == t);
    assert forall|a: int, b: int, c: int, d: int|
        holds(t.repositories, a, b) && holds(t.repositories, c, d) && (a != c || b != d) implies (
    #[trigger] package(t.repositories, a, b)).id() != (#[trigger] package(
        t.repositories,
        c,
        d,
    )).id() by {
        if a == r && b == p {
            assert(holds(s.repositories, c, d));
            assert(package(s.repositories, c, d).id() != id);
        } else if c == r && d == p {
            assert(holds(s.repositories, a, b));
            assert(package(s.repositories, a, b).id() != id);
        } else {
            assert(package(s.repositories, a, b).id() != package(s.repositories, c, d).id());
        }
    }
    assert(holds(t.repositories, r, p));
    lemma_location(t.repositories, id, r, p);
    assert(t.repositories[r].packages.remove(p) =~= s.repositories[r].packages);
    assert(t.remove_package(id).repositories =~= s.repositories);
}

proof fn lemma_mounted_push(containers: Seq<MountedView>, e: MountedView, id: ContainerId)
    ensures
        mounted(containers.push(e), id) <==> mounted(containers, id) || id == e.container,
{
    let after = containers.push(e);
    if mounted(containers, id) {
        let k = index(containers, id);
        assert(after[k].container == id);
    }
    if id == e.container {
        assert(after[containers.len() as int].container == id);
    }
    if mounted(after, id) {
        let k = index(after, id);
        if k < containers.len() {
            assert(containers[k].container == id);
        }
    }
}

pub(crate) proof fn lemma_mounted_remove(containers: Seq<MountedView>, k: int, id: ContainerId)
    requires
        containers_distinct(containers),
        0 <= k < containers.len(),
    ensures
        mounted(containers.remove(k), id) <==> mounted(containers, id) && id
            != containers[k].container,
{
    let after = containers.remove(k);
    if mounted(containers, id) && id != containers[k].container {
        let j = index(containers, id);
        if j < k {
            assert(after[j].container == id);
        } else {
            assert(after[j - 1].container == id);
        }
    }
    if mounted(after, id) {
        let j = index(after, id);
        if j < k {
            assert(containers[j].container == id);
            assert(containers[j].container != containers[k].container);
        } else {
            assert(containers[j + 1].container == id);
            assert(containers[k].container != containers[j + 1].container);
        }
    }
}

proof fn lemma_mounted_update(
    containers: Seq<MountedView>,
    k: int,
    process: Option<ProcessContext>,
    id: ContainerId,
)
    requires
        0 <= k < containers.len(),
    ensures
        mounted(containers.update(k, MountedView { process, ..containers[k] }), id) <==> mounted(
            containers,
            id,
        ),
{
    let after = containers.update(k, MountedView { process, ..containers[k] });
    if mounted(containers, id) {
        let j = index(containers, id);
        assert(after[j].container == id);
    }
    if mounted(after, id) {
        let j = index(after, id);
        assert(containers[j].container == id);
    }
}

/// A new entry that is well formed keeps the state well formed.
pub(crate) proof fn lemma_mount_wf(s: StateView, e: MountedView)
    requires
        s.wf(),
        !s.mounted(e.container),
        s.entry_wf(e),
    ensures
        s.mount(e).wf(),
{
    let t = s.mount(e);
    assert forall|k: int, l: int| 0 <= k < l < t.containers.len() implies (
    #[trigger] t.containers[k]).container != (#[trigger] t.containers[l]).container by {
        if l < s.containers.len() {
            assert(s.containers[k].container != s.containers[l].container);
        } else {
            assert(s.containers[k].container != e.container);
        }
    }
    assert forall|k: int| 0 <= k < t.containers.len() implies t.entry_wf(
        #[trigger] t.containers[k],
    ) by {
        let x = t.containers[k];
        if k < s.containers.len() {
            assert(s.entry_wf(s.containers[k]));
        }
        if x.process is Some {
            assert forall|j: int| 0 <= j < x.manifest.resources().len() implies mounted(
                t.containers,
                #[trigger] x.manifest.resources()[j],
            ) by {
                lemma_mounted_push(s.containers, e, x.manifest.resources()[j]);
            }
        }
    }
}

/// Without a container that neither runs nor is in use, the state stays
/// well formed.
pub(crate) proof fn lemma_umount_wf(s: StateView, id: ContainerId)
    requires
        s.wf(),
        !s.running(id),
        !s.busy(id),
    ensures
        s.umount(id).wf(),
{
    if mounted(s.containers, id) {
        let i = index(s.containers, id);
        let t = s.umount(id);
        assert forall|k: int, l: int| 0 <= k < l < t.containers.len() implies (
        #[trigger] t.containers[k]).container != (#[trigger] t.containers[l]).container by {
            let a = if k < i {
                k
            } else {
                k + 1
            };
            let b = if l < i {
                l
            } else {
                l + 1
            };
            assert(s.containers[a].container != s.containers[b].container);
        }
        assert forall|k: int| 0 <= k < t.containers.len() implies t.entry_wf(
            #[trigger] t.containers[k],
        ) by {
            let a = if k < i {
                k
            } else {
                k + 1
            };
            let x = t.containers[k];
            assert(x == s.containers[a]);
            assert(s.entry_wf(s.containers[a]));
            if x.process is Some {
                assert forall|j: int| 0 <= j < x.manifest.resources().len() implies mounted(
                    t.containers,
                    #[trigger] x.manifest.resources()[j],
                ) by {
                    let res = x.manifest.resources()[j];
                    lemma_mounted_remove(s.containers, i, res);
                    assert(x.manifest.resources().contains(res));
                    assert(s.containers[a].process is Some);
                }
            }
        }
    }
}

/// Giving a process to a mounted application whose resources are
/// mounted, or taking a process away, keeps the state well formed.
pub(crate) proof fn lemma_set_process_wf(s: StateView, id: ContainerId, process: Option<ProcessContext>)
    requires
        s.wf(),
        s.mounted(id),
        process is Some ==> !s.manifest_of(id).is_resource() && all_mounted(
            s.containers,
            s.manifest_of(id).resources(),
        ),
    ensures
        s.set_process(id, process).wf(),
{
    let i = index(s.containers, id);
    let t = s.set_process(id, process);
    assert(s.entry_wf(s.containers[i]));
    assert forall|k: int, l: int| 0 <= k < l < t.containers.len() implies (
    #[trigger] t.containers[k]).container != (#[trigger] t.containers[l]).container by {
        assert(s.containers[k].container != s.containers[l].container);
    }
    assert forall|k: int| 0 <= k < t.containers.len() implies t.entry_wf(
        #[trigger] t.containers[k],
    ) by {
        let x = t.containers[k];
        assert(s.entry_wf(s.containers[k]));
        if x.process is Some {
            assert forall|j: int| 0 <= j < x.manifest.resources().len() implies mounted(
                t.containers,
                #[trigger] x.manifest.resources()[j],
            ) by {
                lemma_mounted_update(s.containers, i, process, x.manifest.resources()[j]);
            }
        }
    }
}

/// What is installed after one more package was installed, and where.
proof fn lemma_installed_install(s: StateView, r: int, manifest: ManifestView, id: ContainerId)
    requires
        packages_distinct(s.repositories),
        0 <= r < s.repositories.len(),
        !s.installed(manifest.id()),
    ensures
        packages_distinct(s.install(r, manifest).repositories),
        s.install(r, manifest).installed(id) <==> s.installed(id) || id == manifest.id(),
        s.installed(id) ==> location(s.install(r, manifest).repositories, id) == location(
            s.repositories,
            id,
        ) && manifest_of(s.install(r, manifest).repositories, id) == manifest_of(
            s.repositories,
            id,
        ) && verified(s.install(r, manifest).repositories, id) == verified(s.repositories, id),
        location(s.install(r, manifest).repositories, manifest.id()) == (
            r,
            s.repositories[r].packages.len() as int,
        ),
{
    let t = s.install(r, manifest);
    let p = s.repositories[r].packages.len() as int;
    assert forall|a: int, b: int, c: int, d: int|
        holds(t.repositories, a, b) && holds(t.repositories, c, d) && (a != c || b != d) implies (
    #[trigger] package(t.repositories, a, b)).id() != (#[trigger] package(
        t.repositories,
        c,
        d,
    )).id() by {
        if a == r && b == p {
            assert(holds(s.repositories, c, d));
            assert(package(s.repositories, c, d).id() != manifest.id());
        } else if c == r && d == p {
            assert(holds(s.repositories, a, b));
            assert(package(s.repositories, a, b).id() != manifest.id());
        } else {
            assert(package(s.repositories, a, b).id() != package(s.repositories, c, d).id());
        }
    }
    assert(holds(t.repositories, r, p));
    lemma_location(t.repositories, manifest.id(), r, p);
    if s.installed(id) {
        let (q, u) = location(s.repositories, id);
        assert(holds(t.repositories, q, u));
        assert(package(t.repositories, q, u) == package(s.repositories, q, u));
        lemma_location(t.repositories, id, q, u);
    }
    if t.installed(id) && id != manifest.id() {
        let (q, u) = location(t.repositories, id);
        assert(holds(s.repositories, q, u));
        assert(package(s.repositories, q, u).id() == id);
    }
}

/// One more package of a new identity keeps the state well formed.
pub(crate) proof fn lemma_install_wf(s: StateView, r: int, manifest: ManifestView)
    requires
        s.wf(),
        0 <= r < s.repositories.len(),
        !s.installed(manifest.id()),
        manifest.wf(),
    ensures
        s.install(r, manifest).wf(),
{
    let t = s.install(r, manifest);
    lemma_installed_install(s, r, manifest, manifest.id());
    assert forall|a: int, b: int| holds(t.repositories, a, b) implies (#[trigger] package(
        t.repositories,
        a,
        b,
    )).wf() by {
        if a == r && b == s.repositories[r].packages.len() {
        } else {
            assert(holds(s.repositories, a, b));
            assert(package(t.repositories, a, b) == package(s.repositories, a, b));
        }
    }
    assert forall|i: int, j: int| 0 <= i < j < t.repositories.len() implies (
    #[trigger] t.repositories[i]).id != (#[trigger] t.repositories[j]).id by {
        assert(s.repositories[i].id != s.repositories[j].id);
    }
    assert forall|k: int| 0 <= k < t.containers.len() implies t.entry_wf(
        #[trigger] t.containers[k],
    ) by {
        let x = t.containers[k];
        assert(s.entry_wf(s.containers[k]));
        lemma_installed_install(s, r, manifest, x.container);
    }
}

/// What is installed after a package was removed, and where.
proof fn lemma_installed_remove(s: StateView, gone: ContainerId, id: ContainerId)
    requires
        packages_distinct(s.repositories),
        s.installed(gone),
    ensures
        packages_distinct(s.remove_package(gone).repositories),
        s.remove_package(gone).installed(id) <==> s.installed(id) && id != gone,
        s.installed(id) && id != gone ==> manifest_of(s.remove_package(gone).repositories, id)
            == manifest_of(s.repositories, id) && verified(s.remove_package(gone).repositories, id)
            == verified(s.repositories, id),
{
    let t = s.remove_package(gone);
    let (r, p) = location(s.repositories, gone);
    assert(holds(s.repositories, r, p) && package(s.repositories, r, p).id() == gone);
    assert forall|a: int, b: int, c: int, d: int|
        holds(t.repositories, a, b) && holds(t.repositories, c, d) && (a != c || b != d) implies (
    #[trigger] package(t.repositories, a, b)).id() != (#[trigger] package(
        t.repositories,
        c,
        d,
    )).id() by {
        let b0 = if a == r && b >= p {
            b + 1
        } else {
            b
        };
        let d0 = if c == r && d >= p {
            d + 1
        } else {
            d
        };
        assert(holds(s.repositories, a, b0) && holds(s.repositories, c, d0));
        assert(package(t.repositories, a, b) == package(s.repositories, a, b0));
        assert(package(t.repositories, c, d) == package(s.repositories, c, d0));
        assert(package(s.repositories, a, b0).id() != package(s.repositories, c, d0).id());
    }
    if s.installed(id) && id != gone {
        let (q, u) = location(s.repositories, id);
        assert(holds(s.repositories, q, u) && package(s.repositories, q, u).id() == id);
        let u1 = if q == r && u > p {
            u - 1
        } else {
            u
        };
        assert(q != r || u != p);
        assert(holds(t.repositories, q, u1));
        assert(package(t.repositories, q, u1) == package(s.repositories, q, u));
        lemma_location(t.repositories, id, q, u1);
    }
    if t.installed(id) {
        let (q, u) = location(t.repositories, id);
        assert(holds(t.repositories, q, u) && package(t.repositories, q, u).id() == id);
        let u0 = if q == r && u >= p {
            u + 1
        } else {
            u
        };
        assert(holds(s.repositories, q, u0));
        assert(package(s.repositories, q, u0) == package(t.repositories, q, u));
        if id == gone {
            assert(package(s.repositories, q, u0).id() != package(s.repositories, r, p).id());
        }
    }
}

/// Without the package of a container that is not mounted, the state
/// stays well formed.
pub(crate) proof fn lemma_remove_package_wf(s: StateView, id: ContainerId)
    requires
        s.wf(),
        !s.mounted(id),
    ensures
        s.remove_package(id).wf(),
{
    if s.installed(id) {
        let t = s.remove_package(id);
        lemma_installed_remove(s, id, id);
        let (r, p) = location(s.repositories, id);
        assert(holds(s.repositories, r, p));
        assert forall|a: int, b: int| holds(t.repositories, a, b) implies (#[trigger] package(
            t.repositories,
            a,
            b,
        )).wf() by {
            let b0 = if a == r && b >= p {
                b + 1
            } else {
                b
            };
            assert(holds(s.repositories, a, b0));
            assert(package(t.repositories, a, b) == package(s.repositories, a, b0));
        }
        assert forall|i: int, j: int| 0 <= i < j < t.repositories.len() implies (
        #[trigger] t.repositories[i]).id != (#[trigger] t.repositories[j]).id by {
            assert(s.repositories[i].id != s.repositories[j].id);
        }
        assert forall|k: int| 0 <= k < t.containers.len() implies t.entry_wf(
            #[trigger] t.containers[k],
        ) by {
            let x = t.containers[k];
            assert(s.entry_wf(s.containers[k]));
            lemma_installed_remove(s, id, x.container);
        }
    }
}

pub(crate) proof fn lemma_first_unmounted_prefix(
    containers: Seq<MountedView>,
    part: Seq<ContainerId>,
    all: Seq<ContainerId>,
)
    requires
        part.len() <= all.len(),
        part =~= all.take(part.len() as int),
        first_unmounted(containers, part) is Some,
    ensures
        first_unmounted(containers, all) == first_unmounted(containers, part),
    decreases all.len() - part.len(),
{
    if part.len() < all.len() {
        let next = all.take(part.len() as int + 1);
        assert(next.drop_last() =~= part);
        lemma_first_unmounted_prefix(containers, next, all);
    } else {
        assert(part =~= all);
    }
}

pub(crate) proof fn lemma_first_unmounted_none(containers: Seq<MountedView>, ids: Seq<ContainerId>)
    ensures
        first_unmounted(containers, ids) is None <==> all_mounted(containers, ids),
    decreases ids.len(),
{
    if ids.len() > 0 {
        lemma_first_unmounted_none(containers, ids.drop_last());
        if all_mounted(containers, ids) {
            assert forall|j: int| 0 <= j < ids.drop_last().len() implies mounted(
                containers,
                #[trigger] ids.drop_last()[j],
            ) by {
                assert(ids.drop_last()[j] == ids[j]);
            }
            assert(mounted(containers, ids[ids.len() - 1]));
        }
        if first_unmounted(containers, ids) is None {
            assert forall|j: int| 0 <= j < ids.len() implies mounted(
                containers,
                #[trigger] ids[j],
            ) by {
                if j < ids.len() - 1 {
                    assert(ids.drop_last()[j] == ids[j]);
                }
            }
        }
    }
}

pub(crate) proof fn lemma_contains_push(seen: Seq<ContainerId>, x: ContainerId, id: ContainerId)
    ensures
        seen.push(x).contains(id) <==> seen.contains(id) || id == x,
{
    let after = seen.push(x);
    if seen.contains(id) {
        let k = choose|k: int| 0 <= k < seen.len() && seen[k] == id;
        assert(after[k] == id);
    }
    if id == x {
        assert(after[seen.len() as int] == id);
    }
    if after.contains(id) {
        let k = choose|k: int| 0 <= k < after.len() && after[k] == id;
        if k < seen.len() {
            assert(seen[k] == id);
        }
    }
}

proof fn lemma_unseen_packages_push(
    packages: Seq<ManifestView>,
    seen: Seq<ContainerId>,
    x: ContainerId,
)
    ensures
        unseen_packages(packages, seen.push(x)) <= unseen_packages(packages, seen),
        !seen.contains(x) && (exists|p: int| 0 <= p < packages.len() && (#[trigger] packages[p]).id() == x)
            ==> unseen_packages(packages, seen.push(x)) < unseen_packages(packages, seen),
    decreases packages.len(),
{
    if packages.len() > 0 {
        let rest = packages.drop_last();
        lemma_unseen_packages_push(rest, seen, x);
        lemma_contains_push(seen, x, packages.last().id());
        if !seen.contains(x) && (exists|p: int|
            0 <= p < packages.len() && (#[trigger] packages[p]).id() == x) {
            let p = choose|p: int| 0 <= p < packages.len() && (#[trigger] packages[p]).id() == x;
            if p < packages.len() - 1 {
                assert(rest[p].id() == x);
            }
        }
    }
}

pub(crate) proof fn lemma_unseen_push(repositories: Seq<RepositoryView>, seen: Seq<ContainerId>, x: ContainerId)
    ensures
        unseen(repositories, seen.push(x)) <= unseen(repositories, seen),
        !seen.contains(x) && installed(repositories, x) ==> unseen(repositories, seen.push(x))
            < unseen(repositories, seen),
    decreases repositories.len(),
{
    if repositories.len() > 0 {
        let rest = repositories.drop_last();
        let last = repositories.len() - 1;
        lemma_unseen_push(rest, seen, x);
        lemma_unseen_packages_push(repositories.last().packages, seen, x);
        if !seen.contains(x) && installed(repositories, x) {
            let (r, p) = location(repositories, x);
            assert(holds(repositories, r, p) && package(repositories, r, p).id() == x);
            if r < last {
                assert(holds(rest, r, p));
                assert(package(rest, r, p).id() == x);
            } else {
                assert(repositories.last().packages[p].id() == x);
            }
        }
    } else {
        if installed(repositories, x) {
            let (r, p) = location(repositories, x);
            assert(holds(repositories, r, p));
        }
    }
}

/// A container needs itself.
pub(crate) proof fn lemma_needs_itself(repositories: Seq<RepositoryView>, id: ContainerId)
    ensures
        needs(repositories, id, id),
{
    let path = seq![id];
    assert(chain(repositories, path));
    assert(path[0] == id && path.last() == id);
}

/// What is needed needs what it refers to.
pub(crate) proof fn lemma_needs_step(
    repositories: Seq<RepositoryView>,
    from: ContainerId,
    via: ContainerId,
    to: ContainerId,
)
    requires
        needs(repositories, from, via),
        refers_to(repositories, via, to),
    ensures
        needs(repositories, from, to),
{
    let path = choose|path: Seq<ContainerId>| #[trigger]
        chain(repositories, path) && path[0] == from && path.last() == via;
    let longer = path.push(to);
    assert forall|i: int| 0 <= i < longer.len() - 1 implies refers_to(
        repositories,
        #[trigger] longer[i],
        longer[i + 1],
    ) by {
        if i < path.len() - 1 {
            assert(refers_to(repositories, path[i], path[i + 1]));
        }
    }
    assert(chain(repositories, longer));
    assert(longer[0] == from && longer.last() == to);
}

/// A list that holds `from`, and with each of its containers what that
/// container refers to, holds everything that `from` needs.
pub(crate) proof fn lemma_closed(
    repositories: Seq<RepositoryView>,
    seen: Seq<ContainerId>,
    from: ContainerId,
    path: Seq<ContainerId>,
    upto: int,
)
    requires
        seen.contains(from),
        forall|k: int, id: ContainerId|
            0 <= k < seen.len() && refers_to(repositories, #[trigger] seen[k], id) ==> #[trigger] seen.contains(
                id,
            ),
        chain(repositories, path),
        path[0] == from,
        0 <= upto < path.len(),
    ensures
        seen.contains(path[upto]),
    decreases upto,
{
    if upto > 0 {
        lemma_closed(repositories, seen, from, path, upto - 1);
        let k = choose|k: int| 0 <= k < seen.len() && seen[k] == path[upto - 1];
        assert(refers_to(repositories, path[upto - 1], path[upto]));
        assert(refers_to(repositories, seen[k], path[upto]));
    }
}

pub(crate) proof fn lemma_running_index(containers: Seq<MountedView>, id: ContainerId, k: int)
    requires
        containers_distinct(containers),
        0 <= k < containers.len(),
        containers[k].container == id,
    ensures
        running(containers, id) <==> containers[k].process is Some,
{
    if running(containers, id) {
        let j = choose|j: int|
            0 <= j < containers.len() && (#[trigger] containers[j]).container == id
                && containers[j].process is Some;
        lemma_index(containers, id, j);
        lemma_index(containers, id, k);
    }
}

pub(crate) proof fn lemma_first_failure_prefix(s: StateView, part: Seq<MountOutcome>, all: Seq<MountOutcome>)
    requires
        part.len() <= all.len(),
        part =~= all.take(part.len() as int),
        s.first_failure(part) is Some,
    ensures
        s.first_failure(all) == s.first_failure(part),
    decreases all.len() - part.len(),
{
    if part.len() < all.len() {
        let next = all.take(part.len() as int + 1);
        assert(next.drop_last() =~= part);
        lemma_first_failure_prefix(s, next, all);
    } else {
        assert(part =~= all);
    }
}

/// Where no outcome of a list failed, none of them did.
pub(crate) proof fn lemma_no_failure(s: StateView, outcomes: Seq<MountOutcome>, j: int)
    requires
        s.first_failure(outcomes) is None,
        0 <= j < outcomes.len(),
    ensures
        !s.failed(outcomes[j]),
    decreases outcomes.len(),
{
    if j < outcomes.len() - 1 {
        lemma_no_failure(s, outcomes.drop_last(), j);
    }
}

/// In a well-formed state no resource container has a process.
pub proof fn lemma_resources_do_not_run(s: StateView, k: int)
    requires
        s.wf(),
        0 <= k < s.containers.len(),
        s.containers[k].manifest.is_resource(),
    ensures
        s.containers[k].process is None,
{
    assert(s.entry_wf(s.containers[k]));
}

/// In a well-formed state every resource that a running application
/// refers to is mounted.
pub proof fn lemma_resources_of_running_are_mounted(s: StateView, k: int, resource: ContainerId)
    requires
        s.wf(),
        0 <= k < s.containers.len(),
        s.containers[k].process is Some,
        s.containers[k].manifest.resources().contains(resource),
    ensures
        s.mounted(resource),
{
    assert(s.entry_wf(s.containers[k]));
    let resources = s.containers[k].manifest.resources();
    let j = choose|j: int| 0 <= j < resources.len() && resources[j] == resource;
    assert(mounted(s.containers, resources[j]));
}

/// In a well-formed state every mounted container is installed, is
/// mounted at its own directory under the run directory, and no other
/// entry has its identity.
pub proof fn lemma_one_directory_each(s: StateView, k: int, l: int)
    requires
        s.wf(),
        0 <= k < s.containers.len(),
        0 <= l < s.containers.len(),
    ensures
        s.installed(s.containers[k].container),
        s.containers[k].root == mount_point(s.run_dir, s.containers[k].container),
        s.containers[k].container == s.containers[l].container ==> k == l,
{
    assert(s.entry_wf(s.containers[k]));
    if k < l {
        assert(s.containers[k].container != s.containers[l].container);
    } else if l < k {
        assert(s.containers[l].container != s.containers[k].container);
    }
}

/// In a well-formed state no two containers are mounted at the same
/// directory.
pub proof fn lemma_roots_are_exclusive(s: StateView, k: int, l: int)
    requires
        s.wf(),
        0 <= k < s.containers.len(),
        0 <= l < s.containers.len(),
        s.containers[k].root == s.containers[l].root,
    ensures
        k == l,
{
    let a = s.containers[k];
    let b = s.containers[l];
    assert(s.entry_wf(a) && s.entry_wf(b));
    let head = s.run_dir + seq!['/'];
    assert(a.root =~= head + a.container.text());
    assert(b.root =~= head + b.container.text());
    assert(a.container.text() =~= (head + a.container.text()).skip(head.len() as int));
    assert(b.container.text() =~= (head + b.container.text()).skip(head.len() as int));
    crate::model::lemma_identity_text_injective(a.container, b.container);
    lemma_one_directory_each(s, k, l);
}

/// In a well-formed state every installed package has a valid name, and
/// its manifest mounts no place twice.
pub proof fn lemma_packages_are_valid(s: StateView, r: int, p: int)
    requires
        s.wf(),
        holds(s.repositories, r, p),
    ensures
        package(s.repositories, r, p).wf(),
{
}

/// In a well-formed state no two packages of the whole repository set
/// have the same name and version.
pub proof fn lemma_packages_are_unique(s: StateView, r: int, p: int, q: int, t: int)
    requires
        s.wf(),
        holds(s.repositories, r, p),
        holds(s.repositories, q, t),
        package(s.repositories, r, p).id() == package(s.repositories, q, t).id(),
    ensures
        r == q && p == t,
{
}

/// Recording mounts that were all made, of containers that were not
/// mounted, puts their entries behind the mounted containers, in the
/// order of the list.
proof fn lemma_apply_mounts(s: StateView, outcomes: Seq<MountOutcome>)
    requires
        all_made(outcomes),
        forall|i: int|
            0 <= i < outcomes.len() ==> !mounted(
                s.containers,
                (#[trigger] outcomes[i]).0.container@,
            ),
    ensures
        s.apply_mounts(outcomes).containers == s.containers + entries_of(s, outcomes),
        s.apply_mounts(outcomes).repositories == s.repositories,
        s.apply_mounts(outcomes).run_dir == s.run_dir,
    decreases outcomes.len(),
{
    if outcomes.len() == 0 {
        assert(s.containers + entries_of(s, outcomes) =~= s.containers);
    } else {
        let rest = outcomes.drop_last();
        let last = outcomes.last();
        assert forall|i: int| 0 <= i < rest.len() implies (#[trigger] rest[i]).1 is Ok by {
            assert(rest[i] == outcomes[i]);
        }
        assert forall|i: int, j: int| 0 <= i < j < rest.len() implies (
        #[trigger] rest[i]).0.container@ != (#[trigger] rest[j]).0.container@ by {
            assert(rest[i] == outcomes[i] && rest[j] == outcomes[j]);
        }
        assert forall|i: int| 0 <= i < rest.len() implies !mounted(
            s.containers,
            (#[trigger] rest[i]).0.container@,
        ) by {
            assert(rest[i] == outcomes[i]);
        }
        lemma_apply_mounts(s, rest);
        let t = s.apply_mounts(rest);
        let id = last.0.container@;
        assert(outcomes[outcomes.len() - 1] == last);
        if mounted(t.containers, id) {
            let k = index(t.containers, id);
            if k < s.containers.len() {
                assert(s.containers[k].container == id);
            } else {
                let i = k - s.containers.len();
                assert(entries_of(s, rest)[i].container == rest[i].0.container@);
                assert(rest[i] == outcomes[i]);
                assert(outcomes[i].0.container@ != outcomes[outcomes.len() - 1].0.container@);
            }
        }
        assert(t.entry_for(id, last.1->Ok_0@) == s.entry_for(id, last.1->Ok_0@));
        assert(s.apply_mounts(outcomes).containers =~= s.containers + entries_of(s, outcomes));
    }
}

/// After the mounts of a plan were all made and recorded, the container
/// that the plan is for can be started: it is mounted, and so is every
/// resource that its manifest refers to.
pub proof fn lemma_plan_suffices(
    s: StateView,
    container: Container,
    plan: Vec<MountRequest>,
    outcomes: Seq<MountOutcome>,
)
    requires
        s.wf(),
        s.start_decision(container, Ok(plan)),
        outcomes.len() == plan.len(),
        forall|i: int|
            0 <= i < outcomes.len() ==> (#[trigger] outcomes[i]).0 == plan[i] && outcomes[i].1 is Ok,
    ensures
        s.first_failure(outcomes) is None,
        s.apply_mounts(outcomes).mounted(container@),
        all_mounted(
            s.apply_mounts(outcomes).containers,
            s.manifest_of(container@).resources(),
        ),
{
    let repos = s.repositories;
    assert(s.start_plan(container@, plan@));
    assert forall|i: int| 0 <= i < outcomes.len() implies !mounted(
        s.containers,
        (#[trigger] outcomes[i]).0.container@,
    ) && installed(repos, outcomes[i].0.container@) by {
        assert(planned(plan@, plan[i].container@));
    }
    assert(all_made(outcomes)) by {
        assert forall|i: int, j: int| 0 <= i < j < outcomes.len() implies (
        #[trigger] outcomes[i]).0.container@ != (#[trigger] outcomes[j]).0.container@ by {
            assert(plan[i].container@ != plan[j].container@);
        }
    }
    lemma_none_failed(s, outcomes);
    lemma_apply_mounts(s, outcomes);
    let t = s.apply_mounts(outcomes);
    let entries = entries_of(s, outcomes);
    assert forall|id: ContainerId|
        needs(repos, container@, id) implies mounted(t.containers, id) by {
        if mounted(s.containers, id) {
            let k = index(s.containers, id);
            assert(t.containers[k].container == id);
        } else {
            assert(planned(plan@, id));
            let i = choose|i: int| 0 <= i < plan.len() && (#[trigger] plan@[i]).container@ == id;
            assert(outcomes[i].0 == plan[i]);
            assert(entries[i].container == id);
            assert(t.containers[s.containers.len() + i] == entries[i]);
        }
    }
    lemma_needs_itself(repos, container@);
    let resources = s.manifest_of(container@).resources();
    assert forall|j: int| 0 <= j < resources.len() implies mounted(
        t.containers,
        #[trigger] resources[j],
    ) by {
        assert(resources.contains(resources[j]));
        assert(refers_to(repos, container@, resources[j]));
        lemma_needs_step(repos, container@, container@, resources[j]);
    }
}

/// Where every mount of a list was made and every container of it is
/// installed, no outcome of the list has failed.
proof fn lemma_none_failed(s: StateView, outcomes: Seq<MountOutcome>)
    requires
        forall|i: int|
            0 <= i < outcomes.len() ==> (#[trigger] outcomes[i]).1 is Ok && installed(
                s.repositories,
                outcomes[i].0.container@,
            ),
    ensures
        s.first_failure(outcomes) is None,
    decreases outcomes.len(),
{
    if outcomes.len() > 0 {
        let rest = outcomes.drop_last();
        assert forall|i: int| 0 <= i < rest.len() implies (#[trigger] rest[i]).1 is Ok
            && installed(s.repositories, rest[i].0.container@) by {
            assert(rest[i] == outcomes[i]);
        }
        lemma_none_failed(s, rest);
        assert(outcomes[outcomes.len() - 1] == outcomes.last());
    }
}

/// Giving up a start leaves no mount of it: after mounts of containers
/// that were not mounted were all made and recorded, unmounting these
/// containers leaves the state as it was before.
pub proof fn lemma_no_lingering_mount(s: StateView, outcomes: Seq<MountOutcome>)
    requires
        s.wf(),
        all_made(outcomes),
        forall|i: int|
            0 <= i < outcomes.len() ==> !mounted(
                s.containers,
                (#[trigger] outcomes[i]).0.container@,
            ),
    ensures
        s.apply_mounts(outcomes).unmount_all(containers_of(outcomes)).0 == s,
{
    lemma_apply_mounts(s, outcomes);
    lemma_unmount_prefix(s, outcomes, outcomes.len() as int);
    let ids = containers_of(outcomes);
    assert(ids.take(outcomes.len() as int) =~= ids);
    assert(s.containers + entries_of(s, outcomes).skip(outcomes.len() as int) =~= s.containers);
}

/// After the first `k` containers of the list were unmounted, the
/// entries of the others are left behind the containers that were
/// mounted before.
proof fn lemma_unmount_prefix(s: StateView, outcomes: Seq<MountOutcome>, k: int)
    requires
        s.wf(),
        all_made(outcomes),
        forall|i: int|
            0 <= i < outcomes.len() ==> !mounted(
                s.containers,
                (#[trigger] outcomes[i]).0.container@,
            ),
        0 <= k <= outcomes.len(),
    ensures
        (StateView {
            containers: s.containers + entries_of(s, outcomes),
            ..s
        }).unmount_all(containers_of(outcomes).take(k)).0 == (StateView {
            containers: s.containers + entries_of(s, outcomes).skip(k),
            ..s
        }),
    decreases k,
{
    let entries = entries_of(s, outcomes);
    let full = StateView { containers: s.containers + entries, ..s };
    let ids = containers_of(outcomes);
    if k == 0 {
        assert(entries.skip(0) =~= entries);
    } else {
        lemma_unmount_prefix(s, outcomes, k - 1);
        assert(ids.take(k).drop_last() =~= ids.take(k - 1));
        let id = ids.take(k).last();
        assert(id == outcomes[k - 1].0.container@);
        let t = StateView { containers: s.containers + entries.skip(k - 1), ..s };
        let at = s.containers.len() as int;
        assert(t.containers[at] == entries[k - 1]);
        assert(t.containers[at].container == id);
        assert forall|a: int, b: int| 0 <= a < b < t.containers.len() implies (
        #[trigger] t.containers[a]).container != (#[trigger] t.containers[b]).container by {
            if b < at {
                assert(s.containers[a].container != s.containers[b].container);
            } else if a < at {
                let j = b - at + k - 1;
                assert(t.containers[b] == entries[j]);
                assert(!mounted(s.containers, outcomes[j].0.container@));
                assert(s.containers[a].container != outcomes[j].0.container@);
            } else {
                let i = a - at + k - 1;
                let j = b - at + k - 1;
                assert(t.containers[a] == entries[i] && t.containers[b] == entries[j]);
                assert(outcomes[i].0.container@ != outcomes[j].0.container@);
            }
        }
        lemma_index(t.containers, id, at);
        lemma_running_index(t.containers, id, at);
        assert(!running(t.containers, id));
        if busy(t.containers, id) {
            let x = choose|x: int|
                0 <= x < t.containers.len() && (#[trigger] t.containers[x]).process is Some
                    && t.containers[x].manifest.resources().contains(id);
            if x < at {
                assert(s.entry_wf(s.containers[x]));
                let resources = s.containers[x].manifest.resources();
                let j = choose|j: int| 0 <= j < resources.len() && resources[j] == id;
                assert(mounted(s.containers, resources[j]));
            } else {
                assert(t.containers[x] == entries[x - at + k - 1]);
            }
        }
        assert(t.containers.remove(at) =~= s.containers + entries.skip(k));
    }
}

} // verus!
