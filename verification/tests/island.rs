use northstar::error::Error;
use northstar::island::{
    checkpoints, found_groups, groups, init_argv, prepare_mounts, retry_after, seccomp_filter,
    wait, CheckpointError, Delivery, Island, IslandProcess, MountKind, MountOp, Start, StopEvent,
    StopStep, Stopping, WaitStatus, Waited, EINTR, ESRCH, SIGCHLD, SIGKILL, SIGTERM,
};
use northstar::model::{CGroups, Container, ExitStatus, Manifest, Mount, Version};
use northstar::state::{BlockDevice, MountedContainer};

fn manifest(name: &str, init: Option<&str>) -> Manifest {
    Manifest {
        name: name.to_string(),
        version: Version::new(0, 0, 1),
        init: init.map(|i| i.to_string()),
        args: None,
        env: None,
        uid: Some(1000),
        gid: Some(1000),
        suppl_groups: None,
        mounts: Vec::new(),
        seccomp: None,
        cgroups: None,
    }
}

fn mounted(manifest: Manifest) -> MountedContainer {
    MountedContainer {
        container: Container::new(manifest.name.clone(), manifest.version),
        manifest,
        root: "/run/hello:0.0.1".to_string(),
        device: BlockDevice::Loopback("/dev/loop0".to_string()),
        process: None,
    }
}

#[test]
fn sync() {
    let (mut child, mut parent) = checkpoints();
    parent.send(Start::Start);
    child.receive(&parent.transmit());
    child.wait(Start::Start).expect("Pipe error");

    child.send(Start::Started);
    parent.receive(&child.transmit());
    parent.wait(Start::Started).expect("Pipe error");
}

#[test]
fn checkpoint_wait_without_data_is_empty() {
    let (mut child, _parent) = checkpoints();
    assert_eq!(child.wait(Start::Start), Err(CheckpointError::Empty));
}

#[test]
fn checkpoint_wait_rejects_other_value() {
    let (mut child, mut parent) = checkpoints();
    parent.send(Start::Died);
    child.receive(&parent.transmit());
    assert_eq!(
        child.wait(Start::Start),
        Err(CheckpointError::Unexpected(Start::Died))
    );
    // The value was consumed.
    assert_eq!(child.wait(Start::Start), Err(CheckpointError::Empty));
}

#[test]
fn checkpoint_wait_rejects_invalid_byte() {
    let (mut child, _parent) = checkpoints();
    child.receive(&vec![7u8]);
    assert_eq!(child.wait(Start::Start), Err(CheckpointError::Invalid(7)));
}

#[test]
fn checkpoint_keeps_order() {
    let (mut child, mut parent) = checkpoints();
    parent.send(Start::Start);
    parent.send(Start::Died);
    let bytes = parent.transmit();
    assert_eq!(bytes, vec![0u8, 2u8]);
    assert_eq!(parent.transmit(), Vec::<u8>::new());
    child.receive(&bytes);
    assert_eq!(child.wait(Start::Start), Ok(()));
    assert_eq!(child.wait(Start::Died), Ok(()));
}

#[test]
fn start_codes_round_trip() {
    for c in [Start::Start, Start::Started, Start::Died] {
        assert_eq!(Start::decode(c.encode()), Some(c));
    }
    assert_eq!(Start::Start.encode(), 0);
    assert_eq!(Start::Started.encode(), 1);
    assert_eq!(Start::Died.encode(), 2);
    assert_eq!(Start::decode(3), None);
}

#[test]
fn exit_code_137_is_signal_9() {
    assert_eq!(
        wait(Ok(WaitStatus::Exited(42, 137))),
        Waited::Exit(ExitStatus::Signaled(9))
    );
}

#[test]
fn exit_code_below_offset_is_exit() {
    assert_eq!(
        wait(Ok(WaitStatus::Exited(42, 0))),
        Waited::Exit(ExitStatus::Exit(0))
    );
    assert_eq!(
        wait(Ok(WaitStatus::Exited(42, 127))),
        Waited::Exit(ExitStatus::Exit(127))
    );
    assert_eq!(
        wait(Ok(WaitStatus::Exited(42, -1))),
        Waited::Exit(ExitStatus::Exit(-1))
    );
}

#[test]
fn exit_code_at_offset_is_signal_0() {
    assert_eq!(
        wait(Ok(WaitStatus::Exited(42, 128))),
        Waited::Exit(ExitStatus::Signaled(0))
    );
    assert_eq!(
        wait(Ok(WaitStatus::Exited(42, 255))),
        Waited::Exit(ExitStatus::Signaled(127))
    );
}

#[test]
fn signaled_is_reported_as_is() {
    assert_eq!(
        wait(Ok(WaitStatus::Signaled(42, SIGKILL, false))),
        Waited::Exit(ExitStatus::Signaled(9))
    );
}

#[test]
fn wait_passes_over_stops_and_interrupts() {
    assert_eq!(wait(Ok(WaitStatus::Stopped(42, 19))), Waited::Again);
    assert_eq!(wait(Ok(WaitStatus::PtraceEvent(42, 5, 1))), Waited::Again);
    assert_eq!(wait(Ok(WaitStatus::PtraceSyscall(42))), Waited::Again);
    assert_eq!(wait(Ok(WaitStatus::Continued(42))), Waited::Again);
    assert_eq!(wait(Ok(WaitStatus::StillAlive)), Waited::Again);
    assert_eq!(wait(Err(EINTR)), Waited::Again);
    assert_eq!(wait(Err(10)), Waited::Failed(10));
}

#[test]
fn event_delivery_retries_only_when_full() {
    assert_eq!(retry_after(Delivery::Full), Some(1));
    assert_eq!(retry_after(Delivery::Sent), None);
    assert_eq!(retry_after(Delivery::Closed), None);
}

#[test]
fn stop_with_timeout_zero_kills_at_once() {
    let process = IslandProcess::Started { pid: 77 };
    let (process, step) = process.stop(0);
    assert_eq!(process, IslandProcess::Stopped);
    let state = match step {
        StopStep::Kill { group, signal, then } => {
            assert_eq!(group, 77);
            assert_eq!(signal, SIGTERM);
            then
        }
        other => panic!("unexpected step {:?}", other),
    };
    let state = match state.next(StopEvent::Killed(Ok(()))) {
        StopStep::Kill { group, signal, then } => {
            assert_eq!(group, 77);
            assert_eq!(signal, SIGKILL);
            then
        }
        other => panic!("unexpected step {:?}", other),
    };
    let state = match state.next(StopEvent::Killed(Ok(()))) {
        StopStep::Await { timeout, then } => {
            assert_eq!(timeout, None);
            then
        }
        other => panic!("unexpected step {:?}", other),
    };
    let status = wait(Ok(WaitStatus::Signaled(77, SIGKILL, false)));
    assert_eq!(status, Waited::Exit(ExitStatus::Signaled(SIGKILL)));
    assert_eq!(
        state.next(StopEvent::Exited(ExitStatus::Signaled(SIGKILL))),
        StopStep::Done(ExitStatus::Signaled(9))
    );
}

#[test]
fn stop_waits_then_kills_after_timeout() {
    let (_, step) = IslandProcess::Created { pid: 5 }.stop(3);
    assert_eq!(
        step,
        StopStep::Kill {
            group: 5,
            signal: SIGTERM,
            then: Stopping::Terminating { pid: 5, timeout: 3 }
        }
    );
    let step = Stopping::Terminating { pid: 5, timeout: 3 }.next(StopEvent::Killed(Ok(())));
    assert_eq!(
        step,
        StopStep::Await {
            timeout: Some(3),
            then: Stopping::Waiting { pid: 5, timeout: 3 }
        }
    );
    let step = Stopping::Waiting { pid: 5, timeout: 3 }.next(StopEvent::TimedOut);
    assert_eq!(
        step,
        StopStep::Kill {
            group: 5,
            signal: SIGKILL,
            then: Stopping::Killing { pid: 5 }
        }
    );
    let step = Stopping::Killing { pid: 5 }.next(StopEvent::Killed(Ok(())));
    assert_eq!(
        step,
        StopStep::Await {
            timeout: None,
            then: Stopping::Reaping { pid: 5 }
        }
    );
}

#[test]
fn stop_ends_when_process_exits_in_time() {
    let step = Stopping::Waiting { pid: 5, timeout: 3 }
        .next(StopEvent::Exited(ExitStatus::Exit(0)));
    assert_eq!(step, StopStep::Done(ExitStatus::Exit(0)));
}

#[test]
fn stop_of_a_process_that_is_gone_awaits_its_status() {
    let step =
        Stopping::Terminating { pid: 5, timeout: 3 }.next(StopEvent::Killed(Err(ESRCH)));
    assert_eq!(
        step,
        StopStep::Await {
            timeout: None,
            then: Stopping::Reaping { pid: 5 }
        }
    );
}

#[test]
fn stop_fails_when_the_signal_cannot_be_sent() {
    let step = Stopping::Terminating { pid: 123, timeout: 3 }.next(StopEvent::Killed(Err(1)));
    assert_eq!(
        step,
        StopStep::Failed(Error::Os("Failed to SIGTERM -123".to_string(), 1))
    );
    let step = Stopping::Killing { pid: 123 }.next(StopEvent::Killed(Err(1)));
    assert_eq!(
        step,
        StopStep::Failed(Error::Os("Failed to kill process".to_string(), 1))
    );
}

#[test]
fn stop_ignores_what_it_does_not_await() {
    let state = Stopping::Reaping { pid: 5 };
    assert_eq!(
        state.next(StopEvent::TimedOut),
        StopStep::Await {
            timeout: None,
            then: state
        }
    );
    let state = Stopping::Waiting { pid: 5, timeout: 9 };
    assert_eq!(
        state.next(StopEvent::Killed(Ok(()))),
        StopStep::Await {
            timeout: Some(9),
            then: state
        }
    );
}

#[test]
fn process_goes_from_created_to_started() {
    let process = IslandProcess::Created { pid: 9 };
    assert_eq!(process.pid(), 9);
    let process = process.start();
    assert_eq!(process, IslandProcess::Started { pid: 9 });
    assert_eq!(process.pid(), 9);
    assert!(process.destroy());
    assert!(!IslandProcess::Stopped.destroy());
}

#[test]
fn argv_starts_with_init() {
    let mut m = manifest("hello", Some("/bin/hello"));
    assert_eq!(
        init_argv(&m),
        Some(("/bin/hello".to_string(), vec!["/bin/hello".to_string()]))
    );
    m.args = Some(vec!["-v".to_string(), "now".to_string()]);
    assert_eq!(
        init_argv(&m),
        Some((
            "/bin/hello".to_string(),
            vec![
                "/bin/hello".to_string(),
                "-v".to_string(),
                "now".to_string()
            ]
        ))
    );
}

#[test]
fn resource_has_no_argv() {
    assert_eq!(init_argv(&manifest("data", None)), None);
}

#[test]
fn env_holds_name_and_version_first() {
    let mut m = manifest("hello", Some("/bin/hello"));
    m.version = Version::new(1, 20, 300);
    assert_eq!(
        northstar::island::env(&m),
        vec!["NAME=hello".to_string(), "VERSION=1.20.300".to_string()]
    );
    m.env = Some(vec![
        ("HELLO".to_string(), "north".to_string()),
        ("EMPTY".to_string(), "".to_string()),
    ]);
    assert_eq!(
        northstar::island::env(&m),
        vec![
            "NAME=hello".to_string(),
            "VERSION=1.20.300".to_string(),
            "HELLO=north".to_string(),
            "EMPTY=".to_string()
        ]
    );
}

#[test]
fn groups_that_are_not_found_are_skipped() {
    assert_eq!(
        found_groups(&vec![Some(4), None, Some(27), None]),
        vec![4, 27]
    );
    assert_eq!(found_groups(&vec![None, None]), Vec::<u32>::new());
    assert_eq!(found_groups(&Vec::new()), Vec::<u32>::new());
}

#[test]
fn groups_of_a_manifest_without_groups_are_none() {
    assert_eq!(groups(&manifest("hello", Some("/hello"))), Vec::<u32>::new());
}

#[test]
fn groups_never_outnumber_the_names() {
    let mut m = manifest("hello", Some("/hello"));
    m.suppl_groups = Some(vec![
        "no-such-group-in-any-database".to_string(),
        "nul\0inside".to_string(),
    ]);
    assert!(groups(&m).len() <= 2);
}

#[test]
fn seccomp_rules_are_those_of_the_manifest() {
    let mut m = manifest("hello", Some("/hello"));
    assert_eq!(seccomp_filter(&mounted(m.clone())), None);
    m.seccomp = Some(vec![("read".to_string(), "1".to_string())]);
    assert_eq!(
        seccomp_filter(&mounted(m)),
        Some(vec![("read".to_string(), "1".to_string())])
    );
}

#[test]
fn launch_keeps_the_tripwire_open() {
    let island = Island::start("/run".to_string(), "/data".to_string(), 7, 8);
    let mut m = manifest("hello", Some("/bin/hello"));
    m.args = Some(vec!["x".to_string()]);
    m.cgroups = Some(CGroups {
        memory: Some(1000),
        cpu: None,
    });
    m.mounts = vec![("/data".to_string(), Mount::Persist)];
    let container = mounted(m);
    let launch = island
        .prepare(&container, &vec![3, 7, 4, 7, 9], vec![27])
        .expect("an application can be launched");
    assert_eq!(launch.init, "/bin/hello");
    assert_eq!(launch.argv, vec!["/bin/hello".to_string(), "x".to_string()]);
    assert_eq!(
        launch.env,
        vec!["NAME=hello".to_string(), "VERSION=0.0.1".to_string()]
    );
    assert_eq!(launch.groups, vec![27]);
    assert_eq!(launch.uid, Some(1000));
    assert_eq!(launch.gid, Some(1000));
    assert_eq!(launch.seccomp, None);
    assert_eq!(launch.root, "/run/hello:0.0.1");
    assert_eq!(launch.entry_point(), "/run/hello:0.0.1/bin/hello");
    assert_eq!(
        launch.mounts,
        vec![MountOp {
            source: "/data/hello:0.0.1".to_string(),
            target: "/run/hello:0.0.1/data".to_string(),
            kind: MountKind::Bind { read_only: false },
        }]
    );
    assert_eq!(launch.fds, vec![3, 4, 9]);
    assert_eq!(launch.tripwire, 7);
    assert!(launch.new_pid_namespace);
    assert!(launch.new_mount_namespace);
    assert_eq!(launch.exit_signal, SIGCHLD);
    assert_eq!(island.shutdown(), (7, 8));
}

#[test]
fn a_resource_cannot_be_launched() {
    let island = Island::start("/run".to_string(), "/data".to_string(), 7, 8);
    let container = mounted(manifest("data", None));
    assert_eq!(
        island.prepare(&container, &Vec::new(), Vec::new()),
        Err(Error::StartContainerResource(Container::new(
            "data".to_string(),
            Version::new(0, 0, 1)
        )))
    );
    assert_eq!(
        island.create(&container, &Vec::new()),
        Err(Error::StartContainerResource(Container::new(
            "data".to_string(),
            Version::new(0, 0, 1)
        )))
    );
}

#[test]
fn create_launches_an_application() {
    let island = Island::start("/run".to_string(), "/data".to_string(), 7, 8);
    let container = mounted(manifest("hello", Some("/bin/hello")));
    let launch = island.create(&container, &vec![7]).expect("launch");
    assert_eq!(launch.init, "/bin/hello");
    assert_eq!(launch.groups, Vec::<u32>::new());
    assert_eq!(launch.fds, Vec::<i32>::new());
}

#[test]
fn mount_table_is_resolved_against_the_roots() {
    let mut m = manifest("hello", Some("/bin/hello"));
    m.mounts = vec![
        (
            "/lib".to_string(),
            Mount::Bind {
                host: "/usr/lib".to_string(),
                writable: false,
            },
        ),
        (
            "/dev/shm".to_string(),
            Mount::Bind {
                host: "/dev/shm".to_string(),
                writable: true,
            },
        ),
        ("/data".to_string(), Mount::Persist),
        ("/tmp".to_string(), Mount::Tmpfs { size: 4096 }),
        (
            "/res".to_string(),
            Mount::Resource {
                name: "tools".to_string(),
                version: Version::new(1, 2, 3),
                dir: "/bin".to_string(),
            },
        ),
    ];
    assert_eq!(
        prepare_mounts("/run", "/var/data", &mounted(m)),
        vec![
            MountOp {
                source: "/usr/lib".to_string(),
                target: "/run/hello:0.0.1/lib".to_string(),
                kind: MountKind::Bind { read_only: true },
            },
            MountOp {
                source: "/dev/shm".to_string(),
                target: "/run/hello:0.0.1/dev/shm".to_string(),
                kind: MountKind::Bind { read_only: false },
            },
            MountOp {
                source: "/var/data/hello:0.0.1".to_string(),
                target: "/run/hello:0.0.1/data".to_string(),
                kind: MountKind::Bind { read_only: false },
            },
            MountOp {
                source: "tmpfs".to_string(),
                target: "/run/hello:0.0.1/tmp".to_string(),
                kind: MountKind::Tmpfs { size: 4096 },
            },
            MountOp {
                source: "/run/tools:1.2.3/bin".to_string(),
                target: "/run/hello:0.0.1/res".to_string(),
                kind: MountKind::Bind { read_only: true },
            },
        ]
    );
}
