use northstar::client::{
    Action, Client, ClientRequest, ConnectReply, ConsoleAddress, Error, DEFAULT_PORT,
};
use northstar::model;
use northstar::model::{
    Connect, Container, MountResult, Notification, Payload, Request, Response, Version,
};

fn hello() -> Container {
    Container::new("hello".to_string(), Version::new(0, 0, 1))
}

#[test]
fn tcp_address_with_port() {
    assert_eq!(
        ConsoleAddress::parse("tcp://localhost:4711"),
        Ok(ConsoleAddress::Tcp {
            host: "localhost".to_string(),
            port: 4711
        })
    );
}

#[test]
fn tcp_address_without_port_uses_the_default() {
    assert_eq!(DEFAULT_PORT, 4200);
    assert_eq!(
        ConsoleAddress::parse("tcp://10.0.0.1"),
        Ok(ConsoleAddress::Tcp {
            host: "10.0.0.1".to_string(),
            port: 4200
        })
    );
}

#[test]
fn unix_address_is_a_path() {
    assert_eq!(
        ConsoleAddress::parse("unix:/tmp/northstar"),
        Ok(ConsoleAddress::Unix("/tmp/northstar".to_string()))
    );
}

#[test]
fn other_schemes_are_invalid() {
    assert_eq!(
        ConsoleAddress::parse("http://localhost:4200"),
        Err(Error::InvalidConsoleAddress(
            "http://localhost:4200".to_string()
        ))
    );
    assert_eq!(
        ConsoleAddress::parse("not a url"),
        Err(Error::InvalidConsoleAddress("not a url".to_string()))
    );
}

#[test]
fn address_from_parts() {
    assert_eq!(
        ConsoleAddress::from_parts(
            "tcp:x",
            Some(("tcp".to_string(), None, Some(1), "x".to_string()))
        ),
        Err(Error::InvalidConsoleAddress("tcp:x".to_string()))
    );
    assert_eq!(
        ConsoleAddress::from_parts(
            "u",
            Some((
                "unix".to_string(),
                Some("h".to_string()),
                Some(1),
                "/p".to_string()
            ))
        ),
        Ok(ConsoleAddress::Unix("/p".to_string()))
    );
    assert_eq!(
        ConsoleAddress::from_parts("u", None),
        Err(Error::InvalidConsoleAddress("u".to_string()))
    );
}

#[test]
fn connect_subscribes_if_asked() {
    let (address, connect) = Client::connect("unix:/run/console", Some(1000)).unwrap();
    assert_eq!(address, ConsoleAddress::Unix("/run/console".to_string()));
    assert_eq!(
        connect,
        Connect::Connect {
            version: model::version(),
            subscribe_notifications: true
        }
    );
    let (_, connect) = Client::connect("tcp://localhost", None).unwrap();
    assert_eq!(
        connect,
        Connect::Connect {
            version: model::version(),
            subscribe_notifications: false
        }
    );
    assert_eq!(
        Client::connect("ftp://x", None),
        Err(Error::InvalidConsoleAddress("ftp://x".to_string()))
    );
}

#[test]
fn only_the_acknowledgement_opens_the_connection() {
    assert_eq!(
        Client::connected(ConnectReply::Message(Payload::Connect(Connect::ConnectAck))),
        Ok(())
    );
    assert_eq!(
        Client::connected(ConnectReply::Message(Payload::Response(Response::Success))),
        Err(Error::Protocol)
    );
    assert_eq!(
        Client::connected(ConnectReply::Message(Payload::Connect(Connect::Connect {
            version: model::version(),
            subscribe_notifications: false
        }))),
        Err(Error::Protocol)
    );
    assert_eq!(
        Client::connected(ConnectReply::Failed("reset".to_string())),
        Err(Error::Io("reset".to_string()))
    );
    assert_eq!(Client::connected(ConnectReply::Closed), Err(Error::Protocol));
    assert_eq!(
        Client::connected(ConnectReply::TimedOut),
        Err(Error::Protocol)
    );
}

#[test]
fn one_request_at_a_time() {
    let mut client = Client::new();
    assert_eq!(
        client.on_request(Some(ClientRequest::Request(Request::Containers))),
        Action::Send(Request::Containers)
    );
    assert_eq!(client.sent(Ok(())), None);
    assert!(client.pending);
    assert_eq!(
        client.on_request(Some(ClientRequest::Request(Request::Repositories))),
        Action::Reject(Error::PendingRequest)
    );
    assert_eq!(
        client.on_message(Some(Ok(Payload::Response(Response::Success)))),
        Action::Deliver(Response::Success)
    );
    assert!(!client.pending);
    assert_eq!(
        client.on_request(Some(ClientRequest::Install(
            "a.npk".to_string(),
            "test".to_string()
        ))),
        Action::Install("a.npk".to_string(), "test".to_string())
    );
    assert_eq!(
        Client::install_request("test".to_string(), 12),
        Request::Install("test".to_string(), 12)
    );
}

#[test]
fn a_request_that_was_not_written_is_not_pending() {
    let mut client = Client::new();
    assert_eq!(
        client.sent(Err("broken pipe".to_string())),
        Some(Action::Reject(Error::Io("broken pipe".to_string())))
    );
    assert!(!client.pending);
}

#[test]
fn unexpected_messages_break_the_protocol() {
    let mut client = Client::new();
    assert_eq!(
        client.on_message(Some(Ok(Payload::Response(Response::Success)))),
        Action::Stop(Err(Error::Protocol))
    );
    assert_eq!(
        client.on_message(Some(Ok(Payload::Request(Request::Shutdown)))),
        Action::Stop(Err(Error::Protocol))
    );
    assert_eq!(
        client.on_message(Some(Ok(Payload::Connect(Connect::ConnectAck)))),
        Action::Stop(Err(Error::Protocol))
    );
    assert_eq!(
        client.on_message(Some(Err("eof".to_string()))),
        Action::Stop(Err(Error::Io("eof".to_string())))
    );
    assert_eq!(client.on_message(None), Action::Stop(Ok(())));
    assert_eq!(client.on_request(None), Action::Stop(Ok(())));
}

#[test]
fn notifications_go_to_the_subscriber() {
    let mut client = Client::new();
    client.sent(Ok(()));
    assert_eq!(
        client.on_message(Some(Ok(Payload::Notification(Notification::Started(
            hello()
        ))))),
        Action::Notify(Notification::Started(hello()))
    );
    assert!(client.pending);
}

#[test]
fn requests_name_the_container() {
    let v = Version::new(0, 0, 1);
    assert_eq!(Client::start("hello", &v), Request::Start(hello()));
    assert_eq!(Client::stop("hello", &v, 3), Request::Stop(hello(), 3));
    assert_eq!(Client::uninstall("hello", &v), Request::Uninstall(hello()));
    assert_eq!(Client::umount("hello", &v), Request::Umount(hello()));
    assert_eq!(Client::shutdown(), Request::Shutdown);
    assert_eq!(
        Client::install("a.npk", "test"),
        ClientRequest::Install("a.npk".to_string(), "test".to_string())
    );
    assert_eq!(
        Client::mount(&vec![
            ("hello".to_string(), v),
            ("test".to_string(), Version::new(0, 0, 2))
        ]),
        Request::Mount(vec![
            hello(),
            Container::new("test".to_string(), Version::new(0, 0, 2))
        ])
    );
}

#[test]
fn responses_are_read_by_what_was_asked() {
    let busy = model::Error::UmountBusy(hello());
    assert_eq!(Client::request(Response::Success), Ok(()));
    assert_eq!(
        Client::request(Response::Failure(busy.clone())),
        Err(Error::Api(busy.clone()))
    );
    assert_eq!(
        Client::request(Response::Repositories(Vec::new())),
        Err(Error::Protocol)
    );
    assert_eq!(Client::containers(Response::Containers(Vec::new())), Ok(Vec::new()));
    assert_eq!(
        Client::containers(Response::Success),
        Err(Error::Protocol)
    );
    assert_eq!(
        Client::containers(Response::Failure(busy.clone())),
        Err(Error::Api(busy.clone()))
    );
    assert_eq!(
        Client::repositories(Response::Repositories(vec!["test".to_string()])),
        Ok(vec!["test".to_string()])
    );
    assert_eq!(
        Client::repositories(Response::Success),
        Err(Error::Protocol)
    );
    assert_eq!(
        Client::mounts(Response::Mount(vec![(hello(), MountResult::Success)])),
        Ok(vec![(hello(), MountResult::Success)])
    );
    assert_eq!(Client::mounts(Response::Success), Err(Error::Protocol));
    assert_eq!(
        Client::mounts(Response::Failure(busy.clone())),
        Err(Error::Api(busy))
    );
}
