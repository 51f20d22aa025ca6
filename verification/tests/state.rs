use northstar::error::Error;
use northstar::model;
use northstar::model::{
    Container, ContainerData, ExitStatus, Manifest, Memory, Mount, MountResult, Notification,
    Process, Request, Resources, Response, Statm, Version,
};
use northstar::state::{
    respond, BlockDevice, Command, MountRequest, MountedContainer, ProcessContext, State,
    Teardown, Termination, Umount, GRACE_PERIOD,
};

fn id(name: &str) -> Container {
    Container::new(name.to_string(), Version::new(0, 0, 1))
}

fn app(name: &str, resources: &[&str]) -> Manifest {
    Manifest {
        name: name.to_string(),
        version: Version::new(0, 0, 1),
        init: Some(format!("/bin/{}", name)),
        args: None,
        env: None,
        uid: Some(1000),
        gid: Some(1000),
        suppl_groups: None,
        mounts: resources
            .iter()
            .enumerate()
            .map(|(i, r)| {
                (
                    format!("/{}/{}", i, r),
                    Mount::Resource {
                        name: r.to_string(),
                        version: Version::new(0, 0, 1),
                        dir: "/".to_string(),
                    },
                )
            })
            .collect(),
        seccomp: None,
        cgroups: None,
    }
}

fn resource(name: &str) -> Manifest {
    let mut m = app(name, &[]);
    m.init = None;
    m
}

fn engine() -> State {
    State::new(
        "/run".to_string(),
        vec![
            ("test".to_string(), Some("/keys/test.pub".to_string())),
            ("plain".to_string(), None),
        ],
    )
    .expect("distinct labels")
}

fn snapshot(state: &State) -> String {
    format!("{:?} {:?}", state.repositories(), state.containers())
}

/// Plans the start of `name`, mounts what the plan asks for and marks the
/// container as started with `pid`.
fn start(state: &mut State, name: &str, pid: u32, now: u64) {
    let plan = state.start(&id(name)).expect("start plan");
    let outcomes = plan
        .into_iter()
        .map(|r| {
            let device = format!("/dev/dm-{}", r.container.name());
            (r, Ok(device))
        })
        .collect();
    state.mounted_all(&outcomes).expect("mounts");
    assert_eq!(
        state.started(&id(name), pid, false, now),
        Ok(Notification::Started(id(name)))
    );
}

#[test]
fn new_engine_is_empty() {
    let state = engine();
    assert_eq!(state.run_dir(), "/run");
    assert_eq!(state.now(), 0);
    assert!(state.containers().is_empty());
    assert_eq!(
        state.list_repositories(),
        vec!["test".to_string(), "plain".to_string()]
    );
    assert_eq!(state.list_containers(), Vec::<ContainerData>::new());
}

#[test]
fn duplicate_repository_is_a_configuration_error() {
    let r = State::new(
        "/run".to_string(),
        vec![
            ("a".to_string(), None),
            ("b".to_string(), None),
            ("a".to_string(), None),
        ],
    );
    assert_eq!(
        r.err(),
        Some(Error::Configuration("Duplicate repository a".to_string()))
    );
}

#[test]
fn install_into_unknown_repository_is_rejected() {
    let mut state = engine();
    assert_eq!(
        state.install("nowhere", app("hello", &[])),
        Err(Error::InvalidRepository("nowhere".to_string()))
    );
    assert_eq!(
        state.install_check("nowhere", 10),
        Err(Error::InvalidRepository("nowhere".to_string()))
    );
}

#[test]
fn install_of_zero_bytes_is_a_malformed_package() {
    let state = engine();
    assert_eq!(
        state.install_check("test", 0),
        Err(Error::Npk(
            "test".to_string(),
            "Malformed package: empty".to_string()
        ))
    );
    assert_eq!(state.install_check("test", 1), Ok(()));
}

#[test]
fn install_duplicate_is_rejected_across_repositories() {
    let mut state = engine();
    assert_eq!(
        state.install("test", app("hello", &[])),
        Ok(Notification::Install(
            "hello".to_string(),
            Version::new(0, 0, 1)
        ))
    );
    let before = snapshot(&state);
    assert_eq!(
        state.install("plain", app("hello", &[])),
        Err(Error::InstallDuplicate(id("hello")))
    );
    assert_eq!(
        state.install("test", app("hello", &[])),
        Err(Error::InstallDuplicate(id("hello")))
    );
    assert_eq!(snapshot(&state), before);
}

#[test]
fn install_then_uninstall_restores_the_state() {
    let mut state = engine();
    state.install("test", app("other", &[])).unwrap();
    let before = snapshot(&state);
    state.install("plain", app("hello", &[])).unwrap();
    assert_ne!(snapshot(&state), before);
    assert_eq!(
        state.uninstall(&id("hello")),
        Ok((
            None,
            Notification::Uninstalled("hello".to_string(), Version::new(0, 0, 1))
        ))
    );
    assert_eq!(snapshot(&state), before);
}

#[test]
fn uninstall_of_unknown_container_is_invalid() {
    let mut state = engine();
    assert_eq!(
        state.uninstall(&id("hello")),
        Err(Error::InvalidContainer(id("hello")))
    );
}

#[test]
fn mount_request_names_root_and_verity() {
    let mut state = engine();
    state.install("test", app("hello", &[])).unwrap();
    state.install("plain", app("free", &[])).unwrap();
    assert_eq!(
        state.mount(&id("hello")),
        Ok(MountRequest {
            container: id("hello"),
            repository: "test".to_string(),
            root: "/run/hello:0.0.1".to_string(),
            verity: true,
        })
    );
    assert_eq!(
        state.mount(&id("free")),
        Ok(MountRequest {
            container: id("free"),
            repository: "plain".to_string(),
            root: "/run/free:0.0.1".to_string(),
            verity: false,
        })
    );
    assert_eq!(
        state.mount(&id("nope")),
        Err(Error::InvalidContainer(id("nope")))
    );
}

#[test]
fn mounted_records_the_device_by_the_key() {
    let mut state = engine();
    state.install("test", app("hello", &[])).unwrap();
    state.install("plain", app("free", &[])).unwrap();
    assert_eq!(state.mounted(&id("hello"), "/dev/dm-0".to_string()), Ok(()));
    assert_eq!(state.mounted(&id("free"), "/dev/loop1".to_string()), Ok(()));
    assert_eq!(
        state.containers()[0],
        MountedContainer {
            container: id("hello"),
            manifest: app("hello", &[]),
            root: "/run/hello:0.0.1".to_string(),
            device: BlockDevice::Verity("/dev/dm-0".to_string()),
            process: None,
        }
    );
    assert_eq!(
        state.containers()[1].device,
        BlockDevice::Loopback("/dev/loop1".to_string())
    );
    assert!(state.is_mounted(&id("hello")));
    assert!(!state.is_running(&id("hello")));
    // Mounting again changes nothing.
    let before = snapshot(&state);
    assert_eq!(state.mounted(&id("hello"), "/dev/dm-9".to_string()), Ok(()));
    assert_eq!(snapshot(&state), before);
    assert_eq!(
        state.mounted(&id("nope"), "/dev/dm-9".to_string()),
        Err(Error::InvalidContainer(id("nope")))
    );
}

#[test]
fn mount_then_umount_restores_the_state() {
    let mut state = engine();
    state.install("test", app("hello", &[])).unwrap();
    state.install("test", resource("data")).unwrap();
    state.mounted(&id("data"), "/dev/dm-0".to_string()).unwrap();
    let before = snapshot(&state);
    state.mounted(&id("hello"), "/dev/dm-1".to_string()).unwrap();
    assert_eq!(
        state.umount(&id("hello")),
        Ok(Some(Umount {
            container: id("hello"),
            root: "/run/hello:0.0.1".to_string(),
            verity: Some("/dev/dm-1".to_string()),
        }))
    );
    assert_eq!(snapshot(&state), before);
}

#[test]
fn umount_of_a_loop_mount_names_no_verity_device() {
    let mut state = engine();
    state.install("plain", app("free", &[])).unwrap();
    state.mounted(&id("free"), "/dev/loop1".to_string()).unwrap();
    assert_eq!(
        state.umount(&id("free")),
        Ok(Some(Umount {
            container: id("free"),
            root: "/run/free:0.0.1".to_string(),
            verity: None,
        }))
    );
}

#[test]
fn umount_of_what_is_not_mounted_needs_nothing() {
    let mut state = engine();
    state.install("test", app("hello", &[])).unwrap();
    assert_eq!(state.umount(&id("hello")), Ok(None));
    assert_eq!(state.umount(&id("nope")), Ok(None));
}

#[test]
fn hello_happy_path() {
    let mut state = engine();
    assert_eq!(state.install_check("test", 4096), Ok(()));
    state.install("test", app("hello", &[])).unwrap();

    let plan = state.start(&id("hello")).expect("plan");
    assert_eq!(
        plan,
        vec![MountRequest {
            container: id("hello"),
            repository: "test".to_string(),
            root: "/run/hello:0.0.1".to_string(),
            verity: true,
        }]
    );
    let outcomes = vec![(
        MountRequest {
            container: id("hello"),
            repository: "test".to_string(),
            root: "/run/hello:0.0.1".to_string(),
            verity: true,
        },
        Ok("/dev/dm-0".to_string()),
    )];
    assert_eq!(state.mounted_all(&outcomes), Ok(()));
    assert_eq!(
        state.started(&id("hello"), 4711, true, 1_000),
        Ok(Notification::Started(id("hello")))
    );
    state.advance(3_500);
    let list = state.list_containers();
    assert_eq!(
        list,
        vec![ContainerData::new(
            id("hello"),
            "test".to_string(),
            app("hello", &[]),
            Some(Process {
                pid: 4711,
                uptime: 2_500,
                resources: Resources { memory: None },
            }),
            true,
        )]
    );

    let termination = state.stop(&id("hello"), 5).expect("running");
    assert_eq!(
        termination,
        Termination {
            container: id("hello"),
            process: ProcessContext {
                pid: 4711,
                started: 1_000,
                cgroups: true
            },
            timeout: 5,
            notification: Notification::Stopped(id("hello")),
        }
    );
    assert_eq!(
        termination.process.terminate(termination.timeout),
        vec![
            Teardown::Stop(4711, 5),
            Teardown::DestroyProcess(4711),
            Teardown::DestroyDebug,
            Teardown::DestroyCgroups
        ]
    );
    assert!(!state.is_running(&id("hello")));
    assert!(state.is_mounted(&id("hello")));

    let (umount, notification) = state.uninstall(&id("hello")).expect("uninstall");
    assert_eq!(
        umount,
        Some(Umount {
            container: id("hello"),
            root: "/run/hello:0.0.1".to_string(),
            verity: Some("/dev/dm-0".to_string()),
        })
    );
    assert_eq!(
        notification,
        Notification::Uninstalled("hello".to_string(), Version::new(0, 0, 1))
    );
    assert_eq!(state.list_containers(), Vec::<ContainerData>::new());
    assert!(!state.is_mounted(&id("hello")));
}

#[test]
fn missing_resource() {
    let mut state = engine();
    state.install("test", app("app", &["data"])).unwrap();
    let before = snapshot(&state);
    assert_eq!(
        state.start(&id("app")),
        Err(Error::StartContainerMissingResource(id("app"), id("data")))
    );
    assert_eq!(snapshot(&state), before);
    let list = state.list_containers();
    assert_eq!(list.len(), 1);
    assert!(!list[0].mounted);
    assert_eq!(list[0].process, None);
}

#[test]
fn first_missing_resource_is_reported() {
    let mut state = engine();
    state
        .install("test", app("app", &["here", "gone", "lost"]))
        .unwrap();
    state.install("test", resource("here")).unwrap();
    assert_eq!(
        state.start(&id("app")),
        Err(Error::StartContainerMissingResource(id("app"), id("gone")))
    );
}

#[test]
fn uninstall_while_running_is_refused() {
    let mut state = engine();
    state.install("test", app("app", &[])).unwrap();
    start(&mut state, "app", 10, 0);
    let before = snapshot(&state);
    assert_eq!(
        state.uninstall(&id("app")),
        Err(Error::UmountBusy(id("app")))
    );
    assert_eq!(snapshot(&state), before);
    state.stop(&id("app"), 1).unwrap();
    assert!(state.uninstall(&id("app")).is_ok());
    assert_eq!(state.list_containers(), Vec::<ContainerData>::new());
}

#[test]
fn start_mounts_the_application_and_its_resources_once() {
    let mut state = engine();
    state
        .install("test", app("app", &["data", "tools", "data"]))
        .unwrap();
    state.install("test", resource("data")).unwrap();
    state.install("plain", resource("tools")).unwrap();
    let plan = state.start(&id("app")).expect("plan");
    let names: Vec<String> = plan.iter().map(|r| r.container.to_string()).collect();
    assert_eq!(
        names,
        vec![
            "app:0.0.1".to_string(),
            "data:0.0.1".to_string(),
            "tools:0.0.1".to_string()
        ]
    );
    assert!(plan[1].verity);
    assert!(!plan[2].verity);
}

#[test]
fn start_does_not_mount_what_is_mounted() {
    let mut state = engine();
    state.install("test", app("app", &["data"])).unwrap();
    state.install("test", resource("data")).unwrap();
    state.mounted(&id("data"), "/dev/dm-0".to_string()).unwrap();
    let plan = state.start(&id("app")).expect("plan");
    assert_eq!(plan.len(), 1);
    assert_eq!(plan[0].container, id("app"));
    state.mounted(&id("app"), "/dev/dm-1".to_string()).unwrap();
    assert_eq!(state.start(&id("app")), Ok(Vec::new()));
}

#[test]
fn start_rejects_resources_unknown_and_running_containers() {
    let mut state = engine();
    state.install("test", app("app", &[])).unwrap();
    state.install("test", resource("data")).unwrap();
    assert_eq!(
        state.start(&id("data")),
        Err(Error::StartContainerResource(id("data")))
    );
    assert_eq!(
        state.start(&id("nope")),
        Err(Error::InvalidContainer(id("nope")))
    );
    start(&mut state, "app", 10, 0);
    assert_eq!(
        state.start(&id("app")),
        Err(Error::StartContainerStarted(id("app")))
    );
}

#[test]
fn failed_mount_rolls_back_the_start() {
    let mut state = engine();
    state.install("test", app("app", &["data", "tools"])).unwrap();
    state.install("test", resource("data")).unwrap();
    state.install("plain", resource("tools")).unwrap();
    let before = snapshot(&state);
    let plan = state.start(&id("app")).expect("plan");
    let mut outcomes = Vec::new();
    for (i, request) in plan.into_iter().enumerate() {
        let outcome = match i {
            1 => Err("verity failed".to_string()),
            _ => Ok(format!("/dev/block{}", i)),
        };
        outcomes.push((request, outcome));
    }
    assert_eq!(
        state.mounted_all(&outcomes),
        Err((
            Error::Mount("verity failed".to_string()),
            vec![
                Umount {
                    container: id("app"),
                    root: "/run/app:0.0.1".to_string(),
                    verity: Some("/dev/block0".to_string()),
                },
                Umount {
                    container: id("tools"),
                    root: "/run/tools:0.0.1".to_string(),
                    verity: None,
                }
            ]
        ))
    );
    assert_eq!(snapshot(&state), before);
}

#[test]
fn first_failed_mount_is_reported() {
    let mut state = engine();
    state.install("test", app("app", &["data"])).unwrap();
    state.install("test", resource("data")).unwrap();
    let plan = state.start(&id("app")).expect("plan");
    let outcomes = plan
        .into_iter()
        .map(|r| {
            let e = format!("no {}", r.container.name());
            (r, Err(e))
        })
        .collect();
    assert_eq!(
        state.mounted_all(&outcomes),
        Err((Error::Mount("no app".to_string()), Vec::new()))
    );
}

#[test]
fn start_with_missing_init_leaves_no_mount() {
    let mut state = engine();
    state.install("test", app("app", &["data"])).unwrap();
    state.install("test", resource("data")).unwrap();
    let before = snapshot(&state);
    let plan = state.start(&id("app")).expect("plan");
    let mounts: Vec<Container> = plan.iter().map(|r| r.container.clone()).collect();
    let outcomes = plan
        .into_iter()
        .map(|r| (r, Ok("/dev/dm-0".to_string())))
        .collect();
    state.mounted_all(&outcomes).unwrap();
    assert!(state.is_mounted(&id("app")));
    assert!(state.is_mounted(&id("data")));
    let (error, undo) = state.start_failed(&id("app"), &mounts, "No such file".to_string());
    assert_eq!(
        error,
        Error::StartContainerFailed(id("app"), "No such file".to_string())
    );
    assert_eq!(undo.len(), 2);
    assert_eq!(undo[0].root, "/run/app:0.0.1");
    assert_eq!(undo[1].root, "/run/data:0.0.1");
    assert_eq!(snapshot(&state), before);
}

#[test]
fn started_needs_a_mounted_application_with_its_resources() {
    let mut state = engine();
    state.install("test", app("app", &["data"])).unwrap();
    state.install("test", resource("data")).unwrap();
    assert_eq!(
        state.started(&id("app"), 1, false, 0),
        Err(Error::StartContainerFailed(
            id("app"),
            "Not mounted".to_string()
        ))
    );
    state.mounted(&id("app"), "/dev/dm-0".to_string()).unwrap();
    assert_eq!(
        state.started(&id("app"), 1, false, 0),
        Err(Error::StartContainerMissingResource(id("app"), id("data")))
    );
    state.mounted(&id("data"), "/dev/dm-1".to_string()).unwrap();
    assert_eq!(
        state.started(&id("data"), 1, false, 0),
        Err(Error::StartContainerResource(id("data")))
    );
    assert_eq!(
        state.started(&id("app"), 1, false, 0),
        Ok(Notification::Started(id("app")))
    );
    assert_eq!(
        state.started(&id("app"), 2, false, 0),
        Err(Error::StartContainerStarted(id("app")))
    );
}

#[test]
fn start_then_stop_restores_the_mounted_state() {
    let mut state = engine();
    state.install("test", app("app", &["data"])).unwrap();
    state.install("test", resource("data")).unwrap();
    state.mounted(&id("app"), "/dev/dm-0".to_string()).unwrap();
    state.mounted(&id("data"), "/dev/dm-1".to_string()).unwrap();
    let before = snapshot(&state);
    state.started(&id("app"), 12, false, 99).unwrap();
    assert_ne!(snapshot(&state), before);
    state.stop(&id("app"), 3).unwrap();
    assert_eq!(snapshot(&state), before);
}

#[test]
fn stop_of_what_does_not_run_is_refused() {
    let mut state = engine();
    state.install("test", app("app", &[])).unwrap();
    assert_eq!(
        state.stop(&id("app"), 3),
        Err(Error::StopContainerNotStarted(id("app")))
    );
    state.mounted(&id("app"), "/dev/dm-0".to_string()).unwrap();
    assert_eq!(
        state.stop(&id("app"), 3),
        Err(Error::StopContainerNotStarted(id("app")))
    );
}

#[test]
fn busy_resource_cannot_be_unmounted() {
    let mut state = engine();
    state.install("test", app("app", &["data"])).unwrap();
    state.install("test", resource("data")).unwrap();
    start(&mut state, "app", 10, 0);
    assert!(state.is_busy(&id("data")));
    assert_eq!(
        state.umount(&id("data")),
        Err(Error::UmountBusy(id("data")))
    );
    assert_eq!(
        state.umount(&id("app")),
        Err(Error::UmountBusy(id("app")))
    );
    assert_eq!(
        state.uninstall(&id("data")),
        Err(Error::UmountBusy(id("data")))
    );
    state.stop(&id("app"), 1).unwrap();
    assert!(!state.is_busy(&id("data")));
    assert!(state.umount(&id("data")).unwrap().is_some());
}

#[test]
fn crashing_container() {
    let mut state = engine();
    state.install("test", app("app", &[])).unwrap();
    start(&mut state, "app", 10, 5);
    let status = match northstar::island::wait(Ok(northstar::island::WaitStatus::Exited(10, 137)))
    {
        northstar::island::Waited::Exit(status) => status,
        other => panic!("no status: {:?}", other),
    };
    assert_eq!(
        state.on_exit(&id("app"), status),
        Some((
            ProcessContext {
                pid: 10,
                started: 5,
                cgroups: false
            },
            Notification::Exit {
                container: id("app"),
                status: ExitStatus::Signaled(9)
            }
        ))
    );
    assert!(!state.is_running(&id("app")));
    assert!(state.is_mounted(&id("app")));
    // A second exit event finds no process and is ignored.
    assert_eq!(state.on_exit(&id("app"), status), None);
    assert_eq!(state.on_exit(&id("nope"), status), None);
}

#[test]
fn out_of_memory_stops_with_the_grace_period() {
    let mut state = engine();
    state.install("test", app("app", &[])).unwrap();
    assert_eq!(state.on_oom(&id("app")), None);
    start(&mut state, "app", 10, 5);
    let (notification, termination) = state.on_oom(&id("app")).expect("running");
    assert_eq!(notification, Notification::OutOfMemory(id("app")));
    assert_eq!(termination.timeout, 5);
    assert_eq!(GRACE_PERIOD, 5);
    assert_eq!(termination.process.pid, 10);
    assert_eq!(termination.notification, Notification::Stopped(id("app")));
    assert!(!state.is_running(&id("app")));
}

#[test]
fn concurrent_bulk_mount() {
    let mut state = engine();
    state.install("test", app("a", &[])).unwrap();
    state.install("test", app("b", &[])).unwrap();
    state.install("test", app("c", &[])).unwrap();
    let request = Request::Mount(vec![id("a"), id("b"), id("c")]);
    let plan = match state.console_request(&request, 0) {
        Command::Mount(plan) => plan,
        other => panic!("unexpected {:?}", other),
    };
    assert_eq!(plan.len(), 3);
    let mut results = Vec::new();
    for (container, step) in plan {
        let request = step.expect("a mount is needed");
        assert_eq!(request.container, container);
        let outcome = if container == id("b") {
            Err("unreadable".to_string())
        } else {
            Ok(format!("/dev/dm-{}", container.name()))
        };
        let result = state.mount_result(&container, Some(outcome));
        results.push((container, result));
    }
    assert_eq!(
        results,
        vec![
            (id("a"), MountResult::Success),
            (
                id("b"),
                MountResult::Failure(model::Error::Mount("unreadable".to_string()))
            ),
            (id("c"), MountResult::Success),
        ]
    );
    let list = state.list_containers();
    assert_eq!(
        list.iter().map(|c| c.mounted).collect::<Vec<_>>(),
        vec![true, false, true]
    );
}

#[test]
fn bulk_mount_is_idempotent_and_skips_repeats() {
    let mut state = engine();
    state.install("test", app("a", &[])).unwrap();
    state.install("test", app("b", &[])).unwrap();
    state.mounted(&id("a"), "/dev/dm-0".to_string()).unwrap();
    let plan = state.mount_plan(&vec![id("a"), id("b"), id("b"), id("x")]);
    assert_eq!(plan.len(), 4);
    assert_eq!(plan[0], (id("a"), None));
    assert_eq!(plan[1].0, id("b"));
    assert!(plan[1].1.is_some());
    assert_eq!(plan[2], (id("b"), None));
    assert_eq!(plan[3], (id("x"), None));
    let before = snapshot(&state);
    assert_eq!(state.mount_result(&id("a"), None), MountResult::Success);
    assert_eq!(snapshot(&state), before);
    assert_eq!(
        state.mount_result(&id("x"), None),
        MountResult::Failure(model::Error::InvalidContainer(id("x")))
    );
    assert_eq!(
        state.mount_result(&id("b"), None),
        MountResult::Failure(model::Error::Mount("Not mounted".to_string()))
    );
    assert_eq!(
        state.mount_result(&id("x"), Some(Ok("/dev/dm-7".to_string()))),
        MountResult::Failure(model::Error::InvalidContainer(id("x")))
    );
}

#[test]
fn shutdown_safety() {
    let mut state = engine();
    state.install("test", app("one", &["data"])).unwrap();
    state.install("test", app("two", &[])).unwrap();
    state.install("test", resource("data")).unwrap();
    start(&mut state, "one", 11, 1);
    start(&mut state, "two", 12, 2);
    let (stops, umounts) = state.shutdown();
    assert_eq!(
        stops
            .iter()
            .map(|t| (t.container.clone(), t.process.pid, t.timeout))
            .collect::<Vec<_>>(),
        vec![(id("one"), 11, 5), (id("two"), 12, 5)]
    );
    assert_eq!(
        stops[0].notification,
        Notification::Stopped(id("one"))
    );
    assert_eq!(
        umounts.iter().map(|u| u.root.clone()).collect::<Vec<_>>(),
        vec![
            "/run/one:0.0.1".to_string(),
            "/run/data:0.0.1".to_string(),
            "/run/two:0.0.1".to_string()
        ]
    );
}

#[test]
fn clock_never_runs_backwards() {
    let mut state = engine();
    state.advance(10);
    assert_eq!(state.now(), 10);
    state.advance(3);
    assert_eq!(state.now(), 10);
    state.install("test", app("app", &[])).unwrap();
    state.mounted(&id("app"), "/dev/dm-0".to_string()).unwrap();
    state.started(&id("app"), 1, false, 7).unwrap();
    assert_eq!(state.containers()[0].process.unwrap().started, 10);
    assert_eq!(state.list_containers()[0].process.unwrap().uptime, 0);
}

#[test]
fn listing_follows_repositories_and_packages() {
    let mut state = engine();
    state.install("plain", app("z", &[])).unwrap();
    state.install("test", app("b", &[])).unwrap();
    state.install("test", resource("a")).unwrap();
    state.mounted(&id("a"), "/dev/dm-0".to_string()).unwrap();
    let list = state.list_containers();
    assert_eq!(
        list.iter()
            .map(|c| (c.container.to_string(), c.repository.clone(), c.mounted))
            .collect::<Vec<_>>(),
        vec![
            ("b:0.0.1".to_string(), "test".to_string(), false),
            ("a:0.0.1".to_string(), "test".to_string(), true),
            ("z:0.0.1".to_string(), "plain".to_string(), false),
        ]
    );
    assert_eq!(list[1].manifest, resource("a"));
}

#[test]
fn memory_is_sampled_for_running_containers_only() {
    let mut running = ContainerData::new(
        id("app"),
        "test".to_string(),
        app("app", &[]),
        Some(Process {
            pid: 3,
            uptime: 8,
            resources: Resources { memory: None },
        }),
        true,
    );
    let statm = Statm {
        size: 10,
        resident: 5,
        share: 2,
        text: 1,
        data: 3,
    };
    running.sample_memory(Some(statm), 4096);
    assert_eq!(
        running.process,
        Some(Process {
            pid: 3,
            uptime: 8,
            resources: Resources {
                memory: Some(Memory {
                    size: 40960,
                    resident: 20480,
                    shared: 8192,
                    text: 4096,
                    data: 12288,
                })
            },
        })
    );
    running.sample_memory(None, 4096);
    assert_eq!(running.process.unwrap().resources.memory, None);
    let mut idle = ContainerData::new(id("app"), "test".to_string(), app("app", &[]), None, true);
    idle.sample_memory(Some(statm), 4096);
    assert_eq!(idle.process, None);
}

#[test]
fn console_request_dispatches() {
    let mut state = engine();
    state.install("test", app("app", &[])).unwrap();
    assert_eq!(
        state.console_request(&Request::Repositories, 1),
        Command::Respond(Response::Repositories(vec![
            "test".to_string(),
            "plain".to_string()
        ]))
    );
    match state.console_request(&Request::Containers, 2) {
        Command::Respond(Response::Containers(list)) => assert_eq!(list.len(), 1),
        other => panic!("unexpected {:?}", other),
    }
    assert_eq!(state.now(), 2);
    assert_eq!(
        state.console_request(&Request::Shutdown, 2),
        Command::Shutdown
    );
    assert_eq!(
        state.console_request(&Request::Install("test".to_string(), 0), 2),
        Command::Install(
            "test".to_string(),
            0,
            Err(Error::Npk(
                "test".to_string(),
                "Malformed package: empty".to_string()
            ))
        )
    );
    assert_eq!(
        state.console_request(&Request::Install("test".to_string(), 9), 2),
        Command::Install("test".to_string(), 9, Ok(()))
    );
    assert_eq!(
        state.console_request(&Request::Stop(id("app"), 5), 2),
        Command::Stop(id("app"), Err(Error::StopContainerNotStarted(id("app"))))
    );
    assert_eq!(
        state.console_request(&Request::Umount(id("app")), 2),
        Command::Umount(id("app"), Ok(None))
    );
    match state.console_request(&Request::Start(id("app")), 2) {
        Command::Start(c, Ok(plan)) => {
            assert_eq!(c, id("app"));
            assert_eq!(plan.len(), 1);
        }
        other => panic!("unexpected {:?}", other),
    }
    assert_eq!(
        state.console_request(&Request::Start(id("nope")), 2),
        Command::Start(id("nope"), Err(Error::InvalidContainer(id("nope"))))
    );
    assert_eq!(
        state.console_request(&Request::Uninstall(id("app")), 2),
        Command::Uninstall(
            id("app"),
            Ok((
                None,
                Notification::Uninstalled("app".to_string(), Version::new(0, 0, 1))
            ))
        )
    );
}

#[test]
fn respond_reports_errors_to_the_client() {
    assert_eq!(respond(Ok(())), Response::Success);
    assert_eq!(
        respond(Err(Error::UmountBusy(id("app")))),
        Response::Failure(model::Error::UmountBusy(id("app")))
    );
}

#[test]
fn destroy_releases_in_order() {
    let context = ProcessContext {
        pid: 8,
        started: 0,
        cgroups: false,
    };
    assert_eq!(
        context.destroy(),
        vec![Teardown::DestroyProcess(8), Teardown::DestroyDebug]
    );
    assert_eq!(
        context.terminate(0),
        vec![
            Teardown::Stop(8, 0),
            Teardown::DestroyProcess(8),
            Teardown::DestroyDebug
        ]
    );
    let context = ProcessContext {
        pid: 8,
        started: 0,
        cgroups: true,
    };
    assert_eq!(
        context.destroy(),
        vec![
            Teardown::DestroyProcess(8),
            Teardown::DestroyDebug,
            Teardown::DestroyCgroups
        ]
    );
}

#[test]
fn invariants_hold_on_a_busy_engine() {
    let mut state = engine();
    state.install("test", app("one", &["data"])).unwrap();
    state.install("plain", app("two", &["data", "tools"])).unwrap();
    state.install("test", resource("data")).unwrap();
    state.install("plain", resource("tools")).unwrap();
    start(&mut state, "one", 11, 100);
    start(&mut state, "two", 12, 50);
    state.advance(200);
    for entry in state.containers() {
        // A process was started in the past; a resource has none.
        if let Some(process) = entry.process {
            assert!(process.started <= state.now());
            assert!(entry.manifest.init.is_some());
            // What a running application refers to is mounted.
            for resource in entry.manifest.resources() {
                assert!(state.is_mounted(&resource));
            }
        }
        // Each container is mounted at its own directory.
        assert_eq!(entry.root, format!("/run/{}", entry.container.to_string()));
    }
    // No two packages share an identity.
    let mut seen = Vec::new();
    for repository in state.repositories() {
        for package in &repository.packages {
            let identity = package.container();
            assert!(!seen.contains(&identity));
            seen.push(identity);
        }
    }
    assert_eq!(seen.len(), 4);
}

#[test]
fn start_mounts_what_the_resources_need() {
    let mut state = engine();
    state.install("test", app("app", &["one"])).unwrap();
    let mut one = app("one", &["two", "app"]);
    one.init = None;
    state.install("test", one).unwrap();
    let mut two = app("two", &["one", "three"]);
    two.init = None;
    state.install("plain", two).unwrap();
    state.install("plain", resource("three")).unwrap();
    state.install("plain", resource("unrelated")).unwrap();
    state.mounted(&id("two"), "/dev/loop0".to_string()).unwrap();
    let plan = state.start(&id("app")).expect("plan");
    let names: Vec<String> = plan.iter().map(|r| r.container.to_string()).collect();
    assert_eq!(
        names,
        vec![
            "app:0.0.1".to_string(),
            "one:0.0.1".to_string(),
            "three:0.0.1".to_string()
        ]
    );
}

#[test]
fn a_resource_of_a_resource_can_be_missing() {
    let mut state = engine();
    state.install("test", app("app", &["one"])).unwrap();
    let mut one = app("one", &["two"]);
    one.init = None;
    state.install("test", one).unwrap();
    assert_eq!(
        state.start(&id("app")),
        Err(Error::StartContainerMissingResource(id("app"), id("two")))
    );
}

#[test]
fn install_rejects_manifests_that_describe_no_package() {
    let mut state = engine();
    let before = snapshot(&state);
    for name in ["", "two words", "tab\tbed", "naïve"] {
        let mut manifest = app("x", &[]);
        manifest.name = name.to_string();
        assert_eq!(
            state.install("test", manifest),
            Err(Error::Npk(
                "test".to_string(),
                "Malformed package: invalid manifest".to_string()
            ))
        );
    }
    let mut twice = app("twice", &[]);
    twice.mounts = vec![
        ("/data".to_string(), Mount::Persist),
        ("/data".to_string(), Mount::Tmpfs { size: 1 }),
    ];
    assert!(state.install("test", twice).is_err());
    let mut env = app("env", &[]);
    env.env = Some(vec![
        ("A".to_string(), "1".to_string()),
        ("A".to_string(), "2".to_string()),
    ]);
    assert!(state.install("test", env).is_err());
    assert_eq!(snapshot(&state), before);
}
