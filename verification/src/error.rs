//! The runtime's errors and how they are reported to a client.

use crate::model;
use crate::model::{Container, RepositoryId};
use crate::text::concat3;
use vstd::prelude::*;
use vstd::std_specs::convert::FromSpecImpl;
use vstd::string::*;

verus! {

/// What can go wrong inside the runtime.
#[derive(Clone, Debug, PartialEq, Eq)]
pub enum Error {
    /// The configuration is not usable.
    Configuration(String),
    /// The container is in no repository.
    InvalidContainer(Container),
    /// The container is running, or a running application uses it.
    UmountBusy(Container),
    /// The container is running already.
    StartContainerStarted(Container),
    /// A resource container cannot be started.
    StartContainerResource(Container),
    /// The first container needs the second, which is in no repository.
    StartContainerMissingResource(Container, Container),
    /// The container could not be started, for the reason given.
    StartContainerFailed(Container, String),
    /// The container is not running.
    StopContainerNotStarted(Container),
    /// There is no repository of this label.
    InvalidRepository(RepositoryId),
    /// The container is in a repository already.
    InstallDuplicate(Container),
    /// A package could not be used: what was tried, and why it failed.
    Npk(String, String),
    Console(String),
    Cgroups(String),
    Mount(String),
    Key(String),
    /// An input or output operation failed: what was tried, and the
    /// system's description of the failure.
    Io(String, String),
    /// A system call failed: what was tried, and the error number.
    Os(String, i32),
}

/// The text that the system library has for an error number.
pub uninterp spec fn errno_text(errno: i32) -> Seq<char>;

/// Calls `nix::errno::Errno::from_i32` and renders what it gives with the
/// type's `Display`. The text depends on the number alone; what it says
/// is left to the system library.
#[verifier::external_body]
fn errno_string(errno: i32) -> (s: String)
    ensures
        s@ == errno_text(errno),
{
    nix::errno::Errno::from_i32(errno).to_string()
}

/// Whether `reported` is what a client is told of `error`: the same kind
/// with the same containers, and the lower layers' faults as one line of
/// text, the cause before the description.
pub open spec fn reports(error: Error, reported: model::Error) -> bool {
    match error {
        Error::Configuration(cause) => reported == model::Error::Configuration(cause),
        Error::InvalidContainer(c) => reported == model::Error::InvalidContainer(c),
        Error::UmountBusy(c) => reported == model::Error::UmountBusy(c),
        Error::StartContainerStarted(c) => reported == model::Error::StartContainerStarted(c),
        Error::StartContainerResource(c) => reported == model::Error::StartContainerResource(c),
        Error::StartContainerMissingResource(c, r) => reported
            == model::Error::StartContainerMissingResource(c, r),
        Error::StartContainerFailed(c, reason) => reported == model::Error::StartContainerFailed(
            c,
            reason,
        ),
        Error::StopContainerNotStarted(c) => reported == model::Error::StopContainerNotStarted(c),
        Error::InvalidRepository(r) => reported == model::Error::InvalidRepository(r),
        Error::InstallDuplicate(c) => reported == model::Error::InstallDuplicate(c),
        Error::Npk(cause, description) => reported == model::Error::Npk(cause, description),
        Error::Console(description) => reported == model::Error::Console(description),
        Error::Cgroups(description) => reported == model::Error::Cgroups(description),
        Error::Mount(description) => reported == model::Error::Mount(description),
        Error::Key(description) => reported == model::Error::Key(description),
        Error::Io(cause, description) => reported matches model::Error::Io(text) && text@ == cause@
            + ": "@ + description@,
        Error::Os(cause, errno) => reported matches model::Error::Os(text) && text@ == cause@
            + ": "@ + errno_text(errno),
    }
}

/// One line of text for a fault of a lower layer: what was tried, a
/// colon, and the description of the failure.
pub fn described(cause: &str, description: &str) -> (text: String)
    ensures
        text@ == cause@ + ": "@ + description@,
{
    concat3(cause, ": ", description)
}

impl Error {
    /// An input or output error: what was tried, and the system's
    /// description of the failure.
    pub fn io(m: &str, e: String) -> (r: Error)
        ensures
            r matches Error::Io(cause, description) && cause@ == m@ && description == e,
    {
        Error::Io(String::from_str(m), e)
    }

    /// A failed system call: what was tried, and the error number.
    pub fn os(e: &str, err: i32) -> (r: Error)
        ensures
            r matches Error::Os(cause, errno) && cause@ == e@ && errno == err,
    {
        Error::Os(String::from_str(e), err)
    }
}

impl FromSpecImpl<Error> for model::Error {
    open spec fn obeys_from_spec() -> bool {
        false
    }

    open spec fn from_spec(error: Error) -> model::Error {
        arbitrary()
    }
}

impl From<Error> for model::Error {
    fn from(error: Error) -> (r: model::Error)
        ensures
            reports(error, r),
    {
        match error {
            Error::Configuration(cause) => model::Error::Configuration(cause),
            Error::InvalidContainer(container) => model::Error::InvalidContainer(container),
            Error::UmountBusy(container) => model::Error::UmountBusy(container),
            Error::StartContainerStarted(container) => model::Error::StartContainerStarted(
                container,
            ),
            Error::StartContainerResource(container) => model::Error::StartContainerResource(
                container,
            ),
            Error::StartContainerMissingResource(container, resource) => {
                model::Error::StartContainerMissingResource(container, resource)
            },
            Error::StartContainerFailed(container, reason) => model::Error::StartContainerFailed(
                container,
                reason,
            ),
            Error::StopContainerNotStarted(container) => model::Error::StopContainerNotStarted(
                container,
            ),
            Error::InvalidRepository(repository) => model::Error::InvalidRepository(repository),
            Error::InstallDuplicate(container) => model::Error::InstallDuplicate(container),
            Error::Npk(cause, description) => model::Error::Npk(cause, description),
            Error::Console(description) => model::Error::Console(description),
            Error::Cgroups(description) => model::Error::Cgroups(description),
            Error::Mount(description) => model::Error::Mount(description),
            Error::Key(description) => model::Error::Key(description),
            Error::Io(cause, description) => model::Error::Io(
                described(cause.as_str(), description.as_str()),
            ),
            Error::Os(cause, errno) => {
                let description = errno_string(errno);
                model::Error::Os(described(cause.as_str(), description.as_str()))
            },
        }
    }
}

} // verus!
