use northstar::cgroups::{directory, settings, CGroups, Controller, Setting};
use northstar::model;
use northstar::model::{Container, Version};
use northstar::mount::{is_verity, removal, rewind, steps, teardown, Image, Removal, Step, Undo, Verity};
use northstar::state::{MountRequest, Umount};

fn request(verity: bool) -> MountRequest {
    MountRequest {
        container: Container::new("hello".to_string(), Version::new(0, 0, 1)),
        repository: "test".to_string(),
        root: "/run/hello:0.0.1".to_string(),
        verity,
    }
}

fn image(verity: bool) -> Image {
    Image {
        offset: 4096,
        size: 65536,
        verity: if verity {
            Some(Verity {
                root_hash: "abc123".to_string(),
            })
        } else {
            None
        },
    }
}

#[test]
fn a_verified_mount_has_three_steps() {
    let plan = steps(&request(true), &image(true));
    assert_eq!(
        plan,
        vec![
            Step::AttachLoop {
                offset: 4096,
                size: 65536
            },
            Step::CreateVerity {
                name: "hello_0.0.1".to_string(),
                root_hash: "abc123".to_string()
            },
            Step::Mount {
                target: "/run/hello:0.0.1".to_string()
            }
        ]
    );
    assert!(is_verity(&plan));
}

#[test]
fn without_key_or_hash_tree_the_loop_device_is_mounted() {
    let expected = vec![
        Step::AttachLoop {
            offset: 4096,
            size: 65536,
        },
        Step::Mount {
            target: "/run/hello:0.0.1".to_string(),
        },
    ];
    assert_eq!(steps(&request(false), &image(true)), expected);
    assert_eq!(steps(&request(true), &image(false)), expected);
    assert_eq!(steps(&request(false), &image(false)), expected);
    assert!(!is_verity(&expected));
}

#[test]
fn a_failure_rewinds_what_was_done() {
    let plan = steps(&request(true), &image(true));
    assert_eq!(rewind(&plan, 0), Vec::<Undo>::new());
    assert_eq!(rewind(&plan, 1), vec![Undo::DetachLoop]);
    assert_eq!(
        rewind(&plan, 2),
        vec![
            Undo::RemoveVerity {
                name: "hello_0.0.1".to_string()
            },
            Undo::DetachLoop
        ]
    );
    let all = vec![
        Undo::Umount {
            target: "/run/hello:0.0.1".to_string(),
        },
        Undo::RemoveVerity {
            name: "hello_0.0.1".to_string(),
        },
        Undo::DetachLoop,
    ];
    assert_eq!(rewind(&plan, 3), all);
    assert_eq!(rewind(&plan, 99), all);
}

#[test]
fn teardown_reverses_the_mount() {
    let umount = Umount {
        container: Container::new("hello".to_string(), Version::new(0, 0, 1)),
        root: "/run/hello:0.0.1".to_string(),
        verity: Some("/dev/dm-0".to_string()),
    };
    let plan = steps(&request(true), &image(true));
    assert_eq!(teardown(&umount), rewind(&plan, plan.len()));
    let umount = Umount {
        container: Container::new("hello".to_string(), Version::new(0, 0, 1)),
        root: "/run/hello:0.0.1".to_string(),
        verity: None,
    };
    assert_eq!(
        teardown(&umount),
        vec![
            Undo::Umount {
                target: "/run/hello:0.0.1".to_string()
            },
            Undo::DetachLoop
        ]
    );
}

#[test]
fn removal_is_awaited_until_the_deadline() {
    assert_eq!(removal(false, 0, 100), Removal::Gone);
    assert_eq!(removal(false, 500, 100), Removal::Gone);
    assert_eq!(removal(true, 99, 100), Removal::Again);
    assert_eq!(removal(true, 100, 100), Removal::TimedOut);
}

#[test]
fn limits_are_written_in_decimal() {
    let limits = model::CGroups {
        memory: Some(10_000_000),
        cpu: Some(100),
    };
    assert_eq!(
        settings(&limits),
        vec![
            Setting {
                controller: Controller::Memory,
                file: "memory.limit_in_bytes".to_string(),
                value: "10000000".to_string()
            },
            Setting {
                controller: Controller::Cpu,
                file: "cpu.shares".to_string(),
                value: "100".to_string()
            }
        ]
    );
    assert_eq!(
        settings(&model::CGroups {
            memory: None,
            cpu: None
        }),
        Vec::<Setting>::new()
    );
}

#[test]
fn group_directory_is_named_by_the_container() {
    let c = Container::new("hello".to_string(), Version::new(0, 0, 1));
    assert_eq!(directory("northstar-17", &c), "northstar-17/hello");
}

#[test]
fn groups_can_be_destroyed_once_processes_are_gone() {
    let mut groups = CGroups::new();
    groups.assign(5);
    groups.assign(6);
    assert_eq!(groups, CGroups::Created { pids: vec![5, 6] });
    assert!(groups.destroy());
    assert_eq!(groups, CGroups::Destroyed);
    assert!(!groups.destroy());
}
