use northstar::error::{described, Error};
use northstar::model;
use northstar::model::{Container, Manifest, Memory, Message, Mount, Payload, Request, Statm, Version};
use northstar::model::{distinct_keys, is_valid_name};
use northstar::text::{concat3, decimal_string, str_eq};

#[test]
fn decimal_notation() {
    assert_eq!(decimal_string(0), "0");
    assert_eq!(decimal_string(7), "7");
    assert_eq!(decimal_string(10), "10");
    assert_eq!(decimal_string(1234567890), "1234567890");
    assert_eq!(decimal_string(u64::MAX), "18446744073709551615");
}

#[test]
fn strings_compare_by_content() {
    assert!(str_eq("", ""));
    assert!(str_eq("tcp", "tcp"));
    assert!(!str_eq("tcp", "tcq"));
    assert!(!str_eq("tcp", "tcpx"));
    assert!(str_eq("việt", "việt"));
    assert_eq!(concat3("a", "=", "b"), "a=b");
}

#[test]
fn version_as_text() {
    assert_eq!(Version::new(0, 0, 1).to_string(), "0.0.1");
    assert_eq!(Version::new(12, 0, 345).to_string(), "12.0.345");
}

#[test]
fn container_as_text() {
    let c = Container::new("hello".to_string(), Version::new(0, 0, 1));
    assert_eq!(c.to_string(), "hello:0.0.1");
    assert_eq!(c.file_name(), "hello-0.0.1.npk");
    assert_eq!(c.name(), "hello");
    assert_eq!(*c.version(), Version::new(0, 0, 1));
}

#[test]
fn containers_are_the_same_by_name_and_version() {
    let a = Container::new("hello".to_string(), Version::new(0, 0, 1));
    assert!(a.is(&a.clone()));
    assert!(!a.is(&Container::new("hello".to_string(), Version::new(0, 0, 2))));
    assert!(!a.is(&Container::new("hallo".to_string(), Version::new(0, 0, 1))));
}

#[test]
fn manifest_names_its_resources_in_order() {
    let m = Manifest {
        name: "app".to_string(),
        version: Version::new(1, 0, 0),
        init: Some("/app".to_string()),
        args: None,
        env: None,
        uid: None,
        gid: None,
        suppl_groups: None,
        mounts: vec![
            (
                "/lib".to_string(),
                Mount::Bind {
                    host: "/lib".to_string(),
                    writable: false,
                },
            ),
            (
                "/b".to_string(),
                Mount::Resource {
                    name: "b".to_string(),
                    version: Version::new(2, 0, 0),
                    dir: "/".to_string(),
                },
            ),
            ("/data".to_string(), Mount::Persist),
            ("/tmp".to_string(), Mount::Tmpfs { size: 1024 }),
            (
                "/a".to_string(),
                Mount::Resource {
                    name: "a".to_string(),
                    version: Version::new(3, 0, 0),
                    dir: "/x".to_string(),
                },
            ),
        ],
        seccomp: None,
        cgroups: None,
    };
    assert_eq!(
        m.resources(),
        vec![
            Container::new("b".to_string(), Version::new(2, 0, 0)),
            Container::new("a".to_string(), Version::new(3, 0, 0))
        ]
    );
    assert_eq!(
        m.container(),
        Container::new("app".to_string(), Version::new(1, 0, 0))
    );
    assert!(!m.is_resource());
    assert_eq!(m.clone(), m);
}

#[test]
fn memory_in_bytes() {
    let statm = Statm {
        size: 3,
        resident: 2,
        share: 1,
        text: 0,
        data: 4,
    };
    assert_eq!(
        Memory::from_statm(&statm, 4096),
        Some(Memory {
            size: 12288,
            resident: 8192,
            shared: 4096,
            text: 0,
            data: 16384,
        })
    );
}

#[test]
fn memory_that_does_not_fit_is_not_reported() {
    let statm = Statm {
        size: u64::MAX,
        resident: 2,
        share: 1,
        text: 0,
        data: 4,
    };
    assert_eq!(Memory::from_statm(&statm, 2), None);
    assert!(Memory::from_statm(&statm, 1).is_some());
}

#[test]
fn messages_carry_their_payload() {
    let m = Message::new_request("7".to_string(), Request::Containers);
    assert_eq!(m.id, "7");
    assert_eq!(m.payload, Payload::Request(Request::Containers));
    assert_eq!(model::version(), Version::new(0, 0, 3));
}

#[test]
fn errors_are_reported_in_the_clients_terms() {
    let c = Container::new("hello".to_string(), Version::new(0, 0, 1));
    let r = Container::new("data".to_string(), Version::new(1, 0, 0));
    let cases = vec![
        (
            Error::Configuration("x".to_string()),
            model::Error::Configuration("x".to_string()),
        ),
        (
            Error::InvalidContainer(c.clone()),
            model::Error::InvalidContainer(c.clone()),
        ),
        (Error::UmountBusy(c.clone()), model::Error::UmountBusy(c.clone())),
        (
            Error::StartContainerStarted(c.clone()),
            model::Error::StartContainerStarted(c.clone()),
        ),
        (
            Error::StartContainerResource(c.clone()),
            model::Error::StartContainerResource(c.clone()),
        ),
        (
            Error::StartContainerMissingResource(c.clone(), r.clone()),
            model::Error::StartContainerMissingResource(c.clone(), r.clone()),
        ),
        (
            Error::StartContainerFailed(c.clone(), "why".to_string()),
            model::Error::StartContainerFailed(c.clone(), "why".to_string()),
        ),
        (
            Error::StopContainerNotStarted(c.clone()),
            model::Error::StopContainerNotStarted(c.clone()),
        ),
        (
            Error::InvalidRepository("repo".to_string()),
            model::Error::InvalidRepository("repo".to_string()),
        ),
        (
            Error::InstallDuplicate(c.clone()),
            model::Error::InstallDuplicate(c.clone()),
        ),
        (
            Error::Npk("a.npk".to_string(), "bad zip".to_string()),
            model::Error::Npk("a.npk".to_string(), "bad zip".to_string()),
        ),
        (
            Error::Console("c".to_string()),
            model::Error::Console("c".to_string()),
        ),
        (
            Error::Cgroups("g".to_string()),
            model::Error::Cgroups("g".to_string()),
        ),
        (Error::Mount("m".to_string()), model::Error::Mount("m".to_string())),
        (Error::Key("k".to_string()), model::Error::Key("k".to_string())),
        (
            Error::io("Open tripwire pipe", "broken pipe".to_string()),
            model::Error::Io("Open tripwire pipe: broken pipe".to_string()),
        ),
        (
            Error::os("Failed to kill process", 3),
            model::Error::Os("Failed to kill process: ESRCH: No such process".to_string()),
        ),
    ];
    for (error, reported) in cases {
        assert_eq!(model::Error::from(error), reported);
    }
}

#[test]
fn unknown_error_number_has_a_text_too() {
    assert_eq!(
        model::Error::from(Error::os("x", 0)),
        model::Error::Os("x: UnknownErrno: Unknown errno".to_string())
    );
}

#[test]
fn versions_are_parsed() {
    assert_eq!(Version::parse("0.0.1"), Some(Version::new(0, 0, 1)));
    assert_eq!(Version::parse("12.0.345"), Some(Version::new(12, 0, 345)));
    assert_eq!(Version::parse("1.0"), None);
    assert_eq!(Version::parse("1.0.01"), None);
    assert_eq!(Version::parse("1.0.unknown"), None);
    assert_eq!(Version::parse("23456789999999999999.0.0"), None);
    assert_eq!(Version::parse(""), None);
}

#[test]
fn versions_with_tags_are_not_three_part_versions() {
    assert_eq!(Version::parse("1.0.0-alpha"), None);
    assert_eq!(Version::parse("1.0.0+build5"), None);
    assert_eq!(Version::from_parts(Some((1, 2, 3, true, true))), Some(Version::new(1, 2, 3)));
    assert_eq!(Version::from_parts(Some((1, 2, 3, false, true))), None);
    assert_eq!(Version::from_parts(Some((1, 2, 3, true, false))), None);
    assert_eq!(Version::from_parts(None), None);
}

#[test]
fn a_version_is_read_back_from_its_text() {
    for v in [
        Version::new(0, 0, 0),
        Version::new(0, 0, 1),
        Version::new(10, 200, 3000),
        Version::new(u64::MAX, 0, u64::MAX),
    ] {
        assert_eq!(Version::parse(&v.to_string()), Some(v));
    }
}

#[test]
fn names_are_not_empty_and_printable() {
    assert!(is_valid_name("hello"));
    assert!(is_valid_name("test_container-2.x"));
    assert!(is_valid_name("!~"));
    assert!(!is_valid_name(""));
    assert!(!is_valid_name("hello world"));
    assert!(!is_valid_name("hello\n"));
    assert!(!is_valid_name("h\u{7f}"));
    assert!(!is_valid_name("héllo"));
}

#[test]
fn tables_have_each_key_once() {
    let table = vec![
        ("a".to_string(), 1u8),
        ("b".to_string(), 1u8),
        ("c".to_string(), 2u8),
    ];
    assert!(distinct_keys(&table));
    assert!(distinct_keys(&Vec::<(String, u8)>::new()));
    let table = vec![
        ("a".to_string(), 1u8),
        ("b".to_string(), 1u8),
        ("a".to_string(), 2u8),
    ];
    assert!(!distinct_keys(&table));
}

#[test]
fn a_manifest_is_valid_with_a_name_and_distinct_keys() {
    let mut m = Manifest {
        name: "app".to_string(),
        version: Version::new(1, 0, 0),
        init: None,
        args: None,
        env: Some(vec![("A".to_string(), "1".to_string())]),
        uid: None,
        gid: None,
        suppl_groups: None,
        mounts: vec![("/data".to_string(), Mount::Persist)],
        seccomp: Some(vec![("read".to_string(), "1".to_string())]),
        cgroups: None,
    };
    assert!(m.is_valid());
    m.seccomp = Some(vec![
        ("read".to_string(), "1".to_string()),
        ("read".to_string(), "2".to_string()),
    ]);
    assert!(!m.is_valid());
}

#[test]
fn faults_are_described_in_one_line() {
    assert_eq!(described("Open pipe", "EMFILE"), "Open pipe: EMFILE");
    assert_eq!(described("", ""), ": ");
}
