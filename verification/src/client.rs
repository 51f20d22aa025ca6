//! The client's side of the control protocol: where to connect, what to
//! send and what to make of what arrives. The stream itself is the
//! caller's.

use crate::model;
use crate::model::{
    Connect, Container, ContainerData, MountResult, Notification, Payload, RepositoryId, Request,
    Response, Version,
};
use crate::text::str_eq;
use vstd::prelude::*;
use vstd::string::*;

verus! {

/// What the stream under a connection has to be: free to move, and fit
/// to be handed to another thread. That it reads and writes is for its
/// owner to ask.
pub trait AsyncReadWrite: Unpin + Send {

}

impl<T: Unpin + Send> AsyncReadWrite for T {

}

/// What can go wrong on the client's side.
#[derive(Clone, Debug, PartialEq, Eq)]
pub enum Error {
    /// The stream failed, with the system's description.
    Io(String),
    Timeout,
    /// The client has ended.
    Stopped,
    /// The runtime sent what the protocol does not allow.
    Protocol,
    /// A request is under way: a connection carries one at a time.
    PendingRequest,
    /// The runtime has refused the request.
    Api(model::Error),
    /// The address is neither `tcp://...` nor `unix:...`.
    InvalidConsoleAddress(String),
}

/// The port of the console where the address names none.
pub const DEFAULT_PORT: u16 = 4200;

/// Where the console of a runtime listens.
#[derive(Clone, Debug, PartialEq, Eq)]
pub enum ConsoleAddress {
    Tcp { host: String, port: u16 },
    /// The path of a socket in the file system.
    Unix(String),
}

/// The parts of a URL that tell where a console listens: scheme, host,
/// port and path.
pub type UrlParts = (String, Option<String>, Option<u16>, String);

/// The parts of the URL that a text is, as the `url` crate parses it; no
/// parts where it is no URL.
pub uninterp spec fn url_parts(url: Seq<char>) -> Option<
    (Seq<char>, Option<Seq<char>>, Option<u16>, Seq<char>),
>;

/// Parses `url` with `url::Url::parse` and gives what the methods
/// `scheme`, `host_str`, `port` and `path` of the result return, or
/// nothing where the parser refuses the text. The parts depend on the
/// text alone; which they are is the parser's to say.
#[verifier::external_body]
fn parse_url(url: &str) -> (parts: Option<UrlParts>)
    ensures
        parts.deep_view() == url_parts(url@),
{
    match url::Url::parse(url) {
        Ok(u) => Some(
            (
                u.scheme().to_string(),
                u.host_str().map(|host| host.to_string()),
                u.port(),
                u.path().to_string(),
            ),
        ),
        Err(_) => None,
    }
}

/// Whether `address` is where the console of this URL listens. With the
/// scheme `tcp` it is the URL's host, at the URL's port or else the
/// default port. With the scheme `unix` it is the URL's path. Every
/// other URL, and what is no URL, is an invalid address.
pub open spec fn addresses(
    url: Seq<char>,
    parts: Option<(Seq<char>, Option<Seq<char>>, Option<u16>, Seq<char>)>,
    address: Result<ConsoleAddress, Error>,
) -> bool {
    match parts {
        Some((scheme, host, port, path)) => if scheme == "tcp"@ {
            match host {
                Some(name) => address matches Ok(ConsoleAddress::Tcp { host: h, port: p }) && h@
                    == name && p == match port {
                    Some(port) => port,
                    None => DEFAULT_PORT,
                },
                None => address matches Err(Error::InvalidConsoleAddress(text)) && text@ == url,
            }
        } else if scheme == "unix"@ {
            address matches Ok(ConsoleAddress::Unix(p)) && p@ == path
        } else {
            address matches Err(Error::InvalidConsoleAddress(text)) && text@ == url
        },
        None => address matches Err(Error::InvalidConsoleAddress(text)) && text@ == url,
    }
}

impl ConsoleAddress {
    /// The address of the console of the URL `url`, from the URL's
    /// parts.
    pub fn from_parts(url: &str, parts: Option<UrlParts>) -> (address: Result<ConsoleAddress, Error>)
        ensures
            addresses(url@, parts.deep_view(), address),
    {
        match parts {
            Some((scheme, host, port, path)) => {
                if str_eq(scheme.as_str(), "tcp") {
                    match host {
                        Some(host) => Ok(
                            ConsoleAddress::Tcp {
                                host,
                                port: match port {
                                    Some(port) => port,
                                    None => DEFAULT_PORT,
                                },
                            },
                        ),
                        None => Err(Error::InvalidConsoleAddress(String::from_str(url))),
                    }
                } else if str_eq(scheme.as_str(), "unix") {
                    Ok(ConsoleAddress::Unix(path))
                } else {
                    Err(Error::InvalidConsoleAddress(String::from_str(url)))
                }
            },
            None => Err(Error::InvalidConsoleAddress(String::from_str(url))),
        }
    }

    /// The address of the console of the URL `url`.
    pub fn parse(url: &str) -> (address: Result<ConsoleAddress, Error>)
        ensures
            addresses(url@, url_parts(url@), address),
    {
        ConsoleAddress::from_parts(url, parse_url(url))
    }
}

/// What came back after the opening message was sent.
#[derive(Debug, PartialEq, Eq)]
pub enum ConnectReply {
    /// A message with this payload.
    Message(Payload),
    /// The stream failed, with the system's description.
    Failed(String),
    /// The stream has ended.
    Closed,
    /// Nothing came in time.
    TimedOut,
}

/// What a client asks of its connection.
#[derive(Clone, Debug, PartialEq, Eq)]
pub enum ClientRequest {
    Request(Request),
    /// Install the package at this path into this repository.
    Install(String, RepositoryId),
}

/// What the owner of the connection is to do.
#[derive(Debug, PartialEq, Eq)]
pub enum Action {
    /// Hand this response to the one who made the pending request.
    Deliver(Response),
    /// Hand this notification to the subscriber.
    Notify(Notification),
    /// Write this request to the stream, and tell how it went.
    Send(Request),
    /// Find the size of the package at this path, write the request to
    /// install that many bytes into this repository, tell how it went,
    /// and write the package behind it.
    Install(String, RepositoryId),
    /// Answer the one who made the new request with this error.
    Reject(Error),
    /// End the connection, in peace or with this error.
    Stop(Result<(), Error>),
}

/// The client's side of a connection after the opening exchange. It
/// knows whether a request is under way.
#[derive(Clone, Copy, Debug, PartialEq, Eq, Structural)]
pub struct Client {
    pub pending: bool,
}

impl Client {
    /// Where to connect for the console at `url`, and the message that
    /// opens the connection. Notifications are subscribed to if a
    /// number of them to hold is given.
    pub fn connect(url: &str, notifications: Option<usize>) -> (r: Result<
        (ConsoleAddress, Connect),
        Error,
    >)
        ensures
            match r {
                Ok((address, connect)) => {
                    &&& addresses(url@, url_parts(url@), Ok::<ConsoleAddress, Error>(address))
                    &&& connect == (Connect::Connect {
                        version: (Version { major: 0, minor: 0, patch: 3 }),
                        subscribe_notifications: notifications is Some,
                    })
                },
                Err(e) => addresses(url@, url_parts(url@), Err::<ConsoleAddress, Error>(e)),
            },
    {
        match ConsoleAddress::parse(url) {
            Ok(address) => Ok(
                (
                    address,
                    Connect::Connect {
                        version: model::version(),
                        subscribe_notifications: notifications.is_some(),
                    },
                ),
            ),
            Err(e) => Err(e),
        }
    }

    /// What the reply to the opening message means: only the runtime's
    /// acknowledgement opens the connection.
    pub fn connected(reply: ConnectReply) -> (r: Result<(), Error>)
        ensures
            match reply {
                ConnectReply::Message(Payload::Connect(Connect::ConnectAck)) => r is Ok,
                ConnectReply::Failed(description) => r == Err::<(), Error>(Error::Io(description)),
                _ => r == Err::<(), Error>(Error::Protocol),
            },
    {
        match reply {
            ConnectReply::Message(Payload::Connect(Connect::ConnectAck)) => Ok(()),
            ConnectReply::Failed(description) => Err(Error::Io(description)),
            _ => Err(Error::Protocol),
        }
    }

    /// A client on a connection that was just opened: no request is
    /// under way.
    pub fn new() -> (client: Client)
        ensures
            !client.pending,
    {
        Client { pending: false }
    }

    /// What to do with what the stream gave: a message's payload, a
    /// failure with its description, or nothing at the stream's end.
    ///
    /// A response answers the pending request, and without one breaks
    /// the protocol, as a request or an opening message from the
    /// runtime does. A notification goes to the subscriber.
    pub fn on_message(&mut self, message: Option<Result<Payload, String>>) -> (action: Action)
        ensures
            match message {
                Some(Ok(Payload::Response(response))) => if old(self).pending {
                    action == Action::Deliver(response) && !final(self).pending
                } else {
                    action == Action::Stop(Err(Error::Protocol)) && *final(self) == *old(self)
                },
                Some(Ok(Payload::Notification(n))) => action == Action::Notify(n) && *final(self)
                    == *old(self),
                Some(Ok(_)) => action == Action::Stop(Err(Error::Protocol)) && *final(self) == *old(
                    self,
                ),
                Some(Err(description)) => action == Action::Stop(Err(Error::Io(description)))
                    && *final(self) == *old(self),
                None => action == Action::Stop(Ok(())) && *final(self) == *old(self),
            },
    {
        match message {
            Some(Ok(Payload::Response(response))) => {
                if self.pending {
                    self.pending = false;
                    Action::Deliver(response)
                } else {
                    Action::Stop(Err(Error::Protocol))
                }
            },
            Some(Ok(Payload::Notification(n))) => Action::Notify(n),
            Some(Ok(_)) => Action::Stop(Err(Error::Protocol)),
            Some(Err(description)) => Action::Stop(Err(Error::Io(description))),
            None => Action::Stop(Ok(())),
        }
    }

    /// What to do with the next request of the client, or with the end
    /// of its requests. While a request is under way, another one is
    /// refused.
    pub fn on_request(&self, request: Option<ClientRequest>) -> (action: Action)
        ensures
            match request {
                None => action == Action::Stop(Ok(())),
                Some(request) => if self.pending {
                    action == Action::Reject(Error::PendingRequest)
                } else {
                    match request {
                        ClientRequest::Request(request) => action == Action::Send(request),
                        ClientRequest::Install(npk, repository) => action == Action::Install(
                            npk,
                            repository,
                        ),
                    }
                },
            },
    {
        match request {
            None => Action::Stop(Ok(())),
            Some(request) => {
                if self.pending {
                    Action::Reject(Error::PendingRequest)
                } else {
                    match request {
                        ClientRequest::Request(request) => Action::Send(request),
                        ClientRequest::Install(npk, repository) => Action::Install(npk, repository),
                    }
                }
            },
        }
    }

    /// Takes note of how writing a request went. A request that was
    /// written is under way. One that was not is answered with the
    /// failure.
    pub fn sent(&mut self, outcome: Result<(), String>) -> (action: Option<Action>)
        ensures
            match outcome {
                Ok(()) => action is None && final(self).pending,
                Err(description) => action == Some(Action::Reject(Error::Io(description)))
                    && *final(self) == *old(self),
            },
    {
        match outcome {
            Ok(()) => {
                self.pending = true;
                None
            },
            Err(description) => Some(Action::Reject(Error::Io(description))),
        }
    }

    /// The request to install a package of `size` bytes into
    /// `repository`.
    pub fn install_request(repository: RepositoryId, size: u64) -> (r: Request)
        ensures
            r == Request::Install(repository, size),
    {
        Request::Install(repository, size)
    }

    /// What the response to a request without a result of its own
    /// means.
    pub fn request(response: Response) -> (r: Result<(), Error>)
        ensures
            match response {
                Response::Success => r is Ok,
                Response::Failure(e) => r == Err::<(), Error>(Error::Api(e)),
                _ => r == Err::<(), Error>(Error::Protocol),
            },
    {
        match response {
            Response::Success => Ok(()),
            Response::Failure(e) => Err(Error::Api(e)),
            _ => Err(Error::Protocol),
        }
    }

    /// What the response to a request for the list of containers means.
    pub fn containers(response: Response) -> (r: Result<Vec<ContainerData>, Error>)
        ensures
            match response {
                Response::Containers(containers) => r == Ok::<Vec<ContainerData>, Error>(containers),
                Response::Failure(e) => r == Err::<Vec<ContainerData>, Error>(Error::Api(e)),
                _ => r == Err::<Vec<ContainerData>, Error>(Error::Protocol),
            },
    {
        match response {
            Response::Containers(containers) => Ok(containers),
            Response::Failure(e) => Err(Error::Api(e)),
            _ => Err(Error::Protocol),
        }
    }

    /// What the response to a request for the list of repositories
    /// means.
    pub fn repositories(response: Response) -> (r: Result<Vec<RepositoryId>, Error>)
        ensures
            match response {
                Response::Repositories(repositories) => r == Ok::<Vec<RepositoryId>, Error>(
                    repositories,
                ),
                Response::Failure(e) => r == Err::<Vec<RepositoryId>, Error>(Error::Api(e)),
                _ => r == Err::<Vec<RepositoryId>, Error>(Error::Protocol),
            },
    {
        match response {
            Response::Repositories(repositories) => Ok(repositories),
            Response::Failure(e) => Err(Error::Api(e)),
            _ => Err(Error::Protocol),
        }
    }

    /// What the response to a request to mount containers means.
    pub fn mounts(response: Response) -> (r: Result<Vec<(Container, MountResult)>, Error>)
        ensures
            match response {
                Response::Mount(mounts) => r == Ok::<Vec<(Container, MountResult)>, Error>(mounts),
                Response::Failure(e) => r == Err::<Vec<(Container, MountResult)>, Error>(
                    Error::Api(e),
                ),
                _ => r == Err::<Vec<(Container, MountResult)>, Error>(Error::Protocol),
            },
    {
        match response {
            Response::Mount(mounts) => Ok(mounts),
            Response::Failure(e) => Err(Error::Api(e)),
            _ => Err(Error::Protocol),
        }
    }

    /// The request to start the container of this name and version.
    pub fn start(name: &str, version: &Version) -> (r: Request)
        ensures
            r matches Request::Start(c) && c@.name == name@ && c@.version == *version,
    {
        Request::Start(Container::new(String::from_str(name), *version))
    }

    /// The request to stop the container of this name and version,
    /// killing it after `timeout` seconds.
    pub fn stop(name: &str, version: &Version, timeout: u64) -> (r: Request)
        ensures
            r matches Request::Stop(c, t) && c@.name == name@ && c@.version == *version && t
                == timeout,
    {
        Request::Stop(Container::new(String::from_str(name), *version), timeout)
    }

    /// The request to install the package at the path `npk` into
    /// `repository`.
    pub fn install(npk: &str, repository: &str) -> (r: ClientRequest)
        ensures
            r matches ClientRequest::Install(path, label) && path@ == npk@ && label@
                == repository@,
    {
        ClientRequest::Install(String::from_str(npk), String::from_str(repository))
    }

    /// The request to uninstall the container of this name and version.
    pub fn uninstall(name: &str, version: &Version) -> (r: Request)
        ensures
            r matches Request::Uninstall(c) && c@.name == name@ && c@.version == *version,
    {
        Request::Uninstall(Container::new(String::from_str(name), *version))
    }

    /// The request to shut the runtime down.
    pub fn shutdown() -> (r: Request)
        ensures
            r == Request::Shutdown,
    {
        Request::Shutdown
    }

    /// The request to mount the containers of these names and versions.
    pub fn mount(containers: &Vec<(String, Version)>) -> (r: Request)
        ensures
            r matches Request::Mount(list) && list.len() == containers.len() && forall|i: int|
                0 <= i < list.len() ==> (#[trigger] list[i])@.name == containers[i].0@
                    && list[i]@.version == containers[i].1,
    {
        let mut list: Vec<Container> = Vec::new();
        let mut i: usize = 0;
        while i < containers.len()
            invariant
                i <= containers.len(),
                list.len() == i,
                forall|j: int|
                    0 <= j < i ==> (#[trigger] list[j])@.name == containers[j].0@
                        && list[j]@.version == containers[j].1,
            decreases containers.len() - i,
        {
            list.push(Container::new(containers[i].0.clone(), containers[i].1));
            i += 1;
        }
        Request::Mount(list)
    }

    /// The request to unmount the container of this name and version.
    pub fn umount(name: &str, version: &Version) -> (r: Request)
        ensures
            r matches Request::Umount(c) && c@.name == name@ && c@.version == *version,
    {
        Request::Umount(Container::new(String::from_str(name), *version))
    }
}

} // verus!
