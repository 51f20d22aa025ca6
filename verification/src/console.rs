//! The runtime's side of a connection of the control protocol: the
//! opening exchange, one request at a time, the bytes of a package that
//! follow a request to install, and the queue of notifications.
//!
//! The session decides; the owner of the stream reads and writes.

use crate::model;
use crate::model::{Connect, Payload, RepositoryId, Request, Response, Version};
use vstd::prelude::*;

verus! {

/// The most notifications that wait for one subscriber.
pub const NOTIFICATION_QUEUE: usize = 1000;

/// Why a connection is given up, or a request refused.
#[derive(Clone, Copy, Debug, PartialEq, Eq, Structural)]
pub enum Error {
    /// The client sent what the protocol does not allow.
    Protocol,
    /// The client speaks another version of the protocol.
    VersionMismatch,
    /// A request arrived while another one was under way.
    PendingRequest,
    /// The subscriber did not keep up with the notifications.
    QueueOverflow,
    /// The stream ended before the package was complete.
    ShortRead,
    /// More bytes were handed over than the package has.
    ExtraBytes,
}

/// What the owner of the connection is to do.
#[derive(Debug, PartialEq, Eq)]
pub enum Action {
    /// Acknowledge the connection.
    Ack,
    /// Hand the request to the engine and wait for its response.
    Forward(Request),
    /// Hand the engine the request to install, and then the bytes of the
    /// package as they are read from the stream.
    Install(RepositoryId, u64),
    /// Do not hand the request on, and tell the client why.
    Refuse(Error),
    /// Close the connection.
    Drop(Error),
}

/// What a session is busy with.
#[derive(Clone, Copy, Debug, PartialEq, Eq, Structural)]
pub enum Phase {
    /// The opening message has not arrived.
    Connecting,
    /// No request is under way.
    Idle,
    /// A request is with the engine.
    Pending,
    /// A request to install is with the engine, and this many bytes of
    /// the package have not been read yet.
    Installing(u64),
    /// The connection is given up.
    Closed,
}

/// One connection, as the runtime sees it.
#[derive(Clone, Copy, Debug, PartialEq, Eq, Structural)]
pub struct Session {
    pub phase: Phase,
    /// Whether the client wants notifications.
    pub subscribed: bool,
    /// How many notifications wait to be sent.
    pub queued: usize,
}

impl Session {
    /// A session on a connection that was just accepted.
    pub fn new() -> (session: Session)
        ensures
            session == (Session { phase: Phase::Connecting, subscribed: false, queued: 0 }),
    {
        Session { phase: Phase::Connecting, subscribed: false, queued: 0 }
    }

    /// What follows on a message, and the session after it.
    ///
    /// The first message must open the connection with this library's
    /// version of the protocol. After that only requests are taken, one
    /// at a time: a request that arrives while another one is under way
    /// is refused. Whatever else arrives closes the connection, and a
    /// closed connection stays closed.
    pub open spec fn receives(self, payload: Payload) -> (Session, Action) {
        match self.phase {
            Phase::Connecting => match payload {
                Payload::Connect(Connect::Connect { version, subscribe_notifications }) => if version
                    == (Version { major: 0, minor: 0, patch: 3 }) {
                    (
                        Session {
                            phase: Phase::Idle,
                            subscribed: subscribe_notifications,
                            queued: self.queued,
                        },
                        Action::Ack,
                    )
                } else {
                    (Session { phase: Phase::Closed, ..self }, Action::Drop(Error::VersionMismatch))
                },
                _ => (Session { phase: Phase::Closed, ..self }, Action::Drop(Error::Protocol)),
            },
            Phase::Idle => match payload {
                Payload::Request(Request::Install(repository, size)) => (
                    Session { phase: Phase::Installing(size), ..self },
                    Action::Install(repository, size),
                ),
                Payload::Request(request) => (
                    Session { phase: Phase::Pending, ..self },
                    Action::Forward(request),
                ),
                _ => (Session { phase: Phase::Closed, ..self }, Action::Drop(Error::Protocol)),
            },
            Phase::Pending | Phase::Installing(_) => match payload {
                Payload::Request(_) => (self, Action::Refuse(Error::PendingRequest)),
                _ => (Session { phase: Phase::Closed, ..self }, Action::Drop(Error::Protocol)),
            },
            Phase::Closed => (self, Action::Drop(Error::Protocol)),
        }
    }

    /// Takes a message that arrived and says what to do.
    pub fn on_message(&mut self, payload: Payload) -> (action: Action)
        ensures
            (*final(self), action) == old(self).receives(payload),
    {
        match self.phase {
            Phase::Connecting => match payload {
                Payload::Connect(Connect::Connect { version, subscribe_notifications }) => {
                    if version == model::version() {
                        self.phase = Phase::Idle;
                        self.subscribed = subscribe_notifications;
                        Action::Ack
                    } else {
                        self.phase = Phase::Closed;
                        Action::Drop(Error::VersionMismatch)
                    }
                },
                _ => {
                    self.phase = Phase::Closed;
                    Action::Drop(Error::Protocol)
                },
            },
            Phase::Idle => match payload {
                Payload::Request(Request::Install(repository, size)) => {
                    self.phase = Phase::Installing(size);
                    Action::Install(repository, size)
                },
                Payload::Request(request) => {
                    self.phase = Phase::Pending;
                    Action::Forward(request)
                },
                _ => {
                    self.phase = Phase::Closed;
                    Action::Drop(Error::Protocol)
                },
            },
            Phase::Pending | Phase::Installing(_) => match payload {
                Payload::Request(_) => Action::Refuse(Error::PendingRequest),
                _ => {
                    self.phase = Phase::Closed;
                    Action::Drop(Error::Protocol)
                },
            },
            Phase::Closed => Action::Drop(Error::Protocol),
        }
    }

    /// How many bytes of the package to read next, given room for
    /// `room` bytes: never more than the package still has.
    pub fn wanted(&self, room: usize) -> (n: usize)
        ensures
            n == match self.phase {
                Phase::Installing(remaining) => if remaining < room {
                    remaining as usize
                } else {
                    room
                },
                _ => 0,
            },
    {
        match self.phase {
            Phase::Installing(remaining) => {
                if remaining < room as u64 {
                    remaining as usize
                } else {
                    room
                }
            },
            _ => 0,
        }
    }

    /// The session after `n` bytes of a package were read, or the reason
    /// why the connection is given up: the stream has ended too early if
    /// nothing was read while bytes are missing, and more bytes than the
    /// package has may not be handed over. Outside an installation
    /// there are no bytes to take.
    pub open spec fn pumps(self, n: usize) -> (Session, Result<(), Error>) {
        match self.phase {
            Phase::Installing(remaining) => if n > remaining {
                (Session { phase: Phase::Closed, ..self }, Err(Error::ExtraBytes))
            } else if n == 0 && remaining > 0 {
                (Session { phase: Phase::Closed, ..self }, Err(Error::ShortRead))
            } else {
                (Session { phase: Phase::Installing((remaining - n) as u64), ..self }, Ok(()))
            },
            _ => (Session { phase: Phase::Closed, ..self }, Err(Error::Protocol)),
        }
    }

    /// Takes note that `n` bytes of the package were read from the
    /// stream and handed to the engine.
    pub fn on_bytes(&mut self, n: usize) -> (r: Result<(), Error>)
        ensures
            (*final(self), r) == old(self).pumps(n),
    {
        match self.phase {
            Phase::Installing(remaining) => {
                if n as u64 > remaining {
                    self.phase = Phase::Closed;
                    Err(Error::ExtraBytes)
                } else if n == 0 && remaining > 0 {
                    self.phase = Phase::Closed;
                    Err(Error::ShortRead)
                } else {
                    self.phase = Phase::Installing(remaining - n as u64);
                    Ok(())
                }
            },
            _ => {
                self.phase = Phase::Closed;
                Err(Error::Protocol)
            },
        }
    }

    /// Whether the engine's response may be sent: a request is under
    /// way, and if it is a request to install, the package is complete.
    pub open spec fn answerable(self) -> bool {
        self.phase == Phase::Pending || self.phase == Phase::Installing(0)
    }

    /// Takes the engine's response to the request that is under way. It
    /// is to be sent to the client, and the next request may come. A
    /// response without a request, or before the package is complete,
    /// is not sent.
    pub fn on_response(&mut self, response: Response) -> (r: Option<Response>)
        ensures
            old(self).answerable() ==> r == Some(response) && *final(self) == (Session {
                phase: Phase::Idle,
                ..*old(self)
            }),
            !old(self).answerable() ==> r is None && *final(self) == *old(self),
    {
        let answerable = match self.phase {
            Phase::Pending => true,
            Phase::Installing(remaining) => remaining == 0,
            _ => false,
        };
        if answerable {
            self.phase = Phase::Idle;
            Some(response)
        } else {
            None
        }
    }

    /// The session after a notification was published, and whether the
    /// connection goes on. Who has not subscribed, or is not connected,
    /// gets none. For a subscriber it joins the queue, unless the queue
    /// is full: then the connection is given up.
    pub open spec fn publishes(self) -> (Session, Result<bool, Error>) {
        if !self.subscribed || self.phase == Phase::Connecting || self.phase == Phase::Closed {
            (self, Ok(false))
        } else if self.queued >= NOTIFICATION_QUEUE {
            (Session { phase: Phase::Closed, ..self }, Err(Error::QueueOverflow))
        } else {
            (Session { queued: (self.queued + 1) as usize, ..self }, Ok(true))
        }
    }

    /// Takes note of a notification that the engine has published. The
    /// result says whether it was queued for this connection.
    pub fn on_notification(&mut self) -> (r: Result<bool, Error>)
        ensures
            (*final(self), r) == old(self).publishes(),
    {
        let listening = match self.phase {
            Phase::Connecting => false,
            Phase::Closed => false,
            _ => true,
        };
        if !self.subscribed || !listening {
            Ok(false)
        } else if self.queued >= NOTIFICATION_QUEUE {
            self.phase = Phase::Closed;
            Err(Error::QueueOverflow)
        } else {
            self.queued = self.queued + 1;
            Ok(true)
        }
    }

    /// Takes note that a queued notification was sent to the client.
    pub fn sent_notification(&mut self)
        ensures
            final(self).phase == old(self).phase,
            final(self).subscribed == old(self).subscribed,
            final(self).queued == if old(self).queued > 0 {
                (old(self).queued - 1) as usize
            } else {
                0
            },
    {
        if self.queued > 0 {
            self.queued = self.queued - 1;
        }
    }
}

/// A session never holds more notifications than the queue allows, once
/// it does not: publishing keeps the bound.
pub proof fn lemma_queue_is_bounded(session: Session)
    requires
        session.queued <= NOTIFICATION_QUEUE,
    ensures
        session.publishes().0.queued <= NOTIFICATION_QUEUE,
{
}

/// While a request is under way no other request is handed to the
/// engine: it is refused, and the session stays as it is.
pub proof fn lemma_one_request_at_a_time(session: Session, request: Request)
    requires
        session.phase == Phase::Pending || session.phase is Installing,
    ensures
        session.receives(Payload::Request(request)) == (
            session,
            Action::Refuse(Error::PendingRequest),
        ),
{
}

} // verus!
