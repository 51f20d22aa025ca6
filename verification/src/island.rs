//! The launcher's decisions: what is handed to a container's first
//! process, the handshake that holds it back until the runtime is ready,
//! how it is stopped, and what its end means.
//!
//! Nothing here clones, signals or waits. The caller does, and tells the
//! outcome.

use crate::error::Error;
use crate::model::{ContainerId, ExitStatus, Manifest, ManifestView, Mount, MountView, Pid};
use crate::state::{mount_point, MountedContainer, MountedView};
use crate::text::{clone_pairs, concat3, decimal, decimal_string};
use vstd::prelude::*;
use vstd::string::*;

verus! {

/// An exit code of this value or more stands for a signal: the signal's
/// number is the code less this value.
pub const SIGNAL_OFFSET: i32 = 128;

/// Number of the signal that asks a process to end.
pub const SIGTERM: u32 = 15;

/// Number of the signal that ends a process.
pub const SIGKILL: u32 = 9;

/// Number of the signal that tells of a child's end.
pub const SIGCHLD: u32 = 17;

/// Error number: no such process.
pub const ESRCH: i32 = 3;

/// Error number: the call was interrupted.
pub const EINTR: i32 = 4;

/// What travels over a checkpoint.
#[derive(Clone, Copy, Debug, PartialEq, Eq, Structural)]
pub enum Start {
    /// The runtime tells the child to go.
    Start,
    /// The child tells the runtime that it goes.
    Started,
    /// The runtime has ended.
    Died,
}

impl Start {
    /// The byte that stands for the value on the pipe.
    pub open spec fn code(self) -> u8 {
        match self {
            Start::Start => 0,
            Start::Started => 1,
            Start::Died => 2,
        }
    }

    /// The value that a byte stands for, if any.
    pub open spec fn of(byte: u8) -> Option<Start> {
        if byte == 0 {
            Some(Start::Start)
        } else if byte == 1 {
            Some(Start::Started)
        } else if byte == 2 {
            Some(Start::Died)
        } else {
            None
        }
    }

    pub fn encode(self) -> (byte: u8)
        ensures
            byte == self.code(),
    {
        match self {
            Start::Start => 0,
            Start::Started => 1,
            Start::Died => 2,
        }
    }

    pub fn decode(byte: u8) -> (r: Option<Start>)
        ensures
            r == Start::of(byte),
    {
        if byte == 0 {
            Some(Start::Start)
        } else if byte == 1 {
            Some(Start::Started)
        } else if byte == 2 {
            Some(Start::Died)
        } else {
            None
        }
    }
}

/// Every value is read back from its byte.
pub proof fn lemma_start_round_trip(c: Start)
    ensures
        Start::of(c.code()) == Some(c),
{
}

/// Why a wait at a checkpoint did not succeed.
#[derive(Clone, Copy, Debug, PartialEq, Eq, Structural)]
pub enum CheckpointError {
    /// Nothing has arrived yet.
    Empty,
    /// Another value has arrived than the one waited for.
    Unexpected(Start),
    /// A byte has arrived that stands for no value.
    Invalid(u8),
}

/// One side of the handshake between the runtime and a container's first
/// process: the read end of one pipe and the write end of another, each
/// as the bytes that are under way.
#[derive(Debug)]
pub struct Checkpoint {
    incoming: Vec<u8>,
    outgoing: Vec<u8>,
}

pub struct CheckpointView {
    /// What has arrived and was not waited for yet.
    pub incoming: Seq<u8>,
    /// What was sent and has not left yet.
    pub outgoing: Seq<u8>,
}

impl View for Checkpoint {
    type V = CheckpointView;

    closed spec fn view(&self) -> CheckpointView {
        CheckpointView { incoming: self.incoming@, outgoing: self.outgoing@ }
    }
}

/// The two sides of a handshake, with nothing under way.
pub fn checkpoints() -> (r: (Checkpoint, Checkpoint))
    ensures
        r.0@ == (CheckpointView { incoming: Seq::empty(), outgoing: Seq::empty() }),
        r.1@ == (CheckpointView { incoming: Seq::empty(), outgoing: Seq::empty() }),
{
    (
        Checkpoint { incoming: Vec::new(), outgoing: Vec::new() },
        Checkpoint { incoming: Vec::new(), outgoing: Vec::new() },
    )
}

impl Checkpoint {
    /// Sends `c` to the other side.
    pub fn send(&mut self, c: Start)
        ensures
            final(self)@.outgoing == old(self)@.outgoing.push(c.code()),
            final(self)@.incoming == old(self)@.incoming,
    {
        self.outgoing.push(c.encode());
    }

    /// Takes the next value that has arrived, which must be `c`.
    pub fn wait(&mut self, c: Start) -> (r: Result<(), CheckpointError>)
        ensures
            final(self)@.outgoing == old(self)@.outgoing,
            old(self)@.incoming.len() == 0 ==> r == Err::<(), CheckpointError>(
                CheckpointError::Empty,
            ) && final(self)@.incoming == old(self)@.incoming,
            old(self)@.incoming.len() > 0 ==> final(self)@.incoming
                == old(self)@.incoming.drop_first() && r == match Start::of(
                old(self)@.incoming[0],
            ) {
                Some(n) => if n == c {
                    Ok(())
                } else {
                    Err(CheckpointError::Unexpected(n))
                },
                None => Err(CheckpointError::Invalid(old(self)@.incoming[0])),
            },
    {
        if self.incoming.len() == 0 {
            return Err(CheckpointError::Empty);
        }
        let ghost before = self.incoming@;
        let byte = self.incoming.remove(0);
        assert(self.incoming@ =~= before.drop_first());
        match Start::decode(byte) {
            Some(n) => if n == c {
                Ok(())
            } else {
                Err(CheckpointError::Unexpected(n))
            },
            None => Err(CheckpointError::Invalid(byte)),
        }
    }

    /// Takes the bytes that were sent, to be written to the pipe.
    pub fn transmit(&mut self) -> (bytes: Vec<u8>)
        ensures
            bytes@ == old(self)@.outgoing,
            final(self)@.outgoing == Seq::<u8>::empty(),
            final(self)@.incoming == old(self)@.incoming,
    {
        let mut bytes: Vec<u8> = Vec::new();
        std::mem::swap(&mut bytes, &mut self.outgoing);
        bytes
    }

    /// Takes in bytes that were read from the pipe.
    pub fn receive(&mut self, bytes: &Vec<u8>)
        ensures
            final(self)@.incoming == old(self)@.incoming + bytes@,
            final(self)@.outgoing == old(self)@.outgoing,
    {
        let mut i: usize = 0;
        while i < bytes.len()
            invariant
                i <= bytes.len(),
                self.outgoing@ == old(self)@.outgoing,
                self.incoming@ == old(self)@.incoming + bytes@.take(i as int),
            decreases bytes.len() - i,
        {
            self.incoming.push(bytes[i]);
            assert(bytes@.take(i + 1) =~= bytes@.take(i as int).push(bytes@[i as int]));
            i += 1;
        }
        assert(bytes@.take(i as int) =~= bytes@);
    }
}

/// The process of a container as the launcher holds it.
#[derive(Debug, PartialEq, Eq, Clone, Copy, Structural)]
pub enum IslandProcess {
    /// The process exists and is held at its checkpoint.
    Created { pid: Pid },
    /// The process runs the container's entry point.
    Started { pid: Pid },
    /// The process has ended.
    Stopped,
}

/// What to do next in order to stop a process, and for the first two,
/// the protocol's state while it is done.
#[derive(Debug, PartialEq, Eq)]
pub enum StopStep {
    /// Send the signal to the process group that `group` leads, and tell
    /// the outcome.
    Kill { group: Pid, signal: u32, then: Stopping },
    /// Wait for the process to end, for `timeout` seconds or without
    /// limit, and tell the outcome.
    Await { timeout: Option<u64>, then: Stopping },
    /// The process has ended with this status.
    Done(ExitStatus),
    /// The process could not be stopped.
    Failed(Error),
}

/// What a stop in progress awaits.
#[derive(Debug, PartialEq, Eq, Clone, Copy, Structural)]
pub enum Stopping {
    /// The outcome of the request to end.
    Terminating { pid: Pid, timeout: u64 },
    /// The end of the process, within the timeout.
    Waiting { pid: Pid, timeout: u64 },
    /// The outcome of the kill.
    Killing { pid: Pid },
    /// The end of the process, without limit.
    Reaping { pid: Pid },
}

/// What the caller tells of a step.
#[derive(Debug, PartialEq, Eq, Clone, Copy)]
pub enum StopEvent {
    /// The signal was sent, or sending it failed with this error number.
    Killed(Result<(), i32>),
    /// The process has ended with this status.
    Exited(ExitStatus),
    /// The process has not ended within the timeout.
    TimedOut,
}

impl Stopping {
    /// The step that this state awaits the outcome of.
    pub open spec fn step(self) -> StopStep {
        match self {
            Stopping::Terminating { pid, timeout } => StopStep::Kill {
                group: pid,
                signal: SIGTERM,
                then: self,
            },
            Stopping::Waiting { pid, timeout } => StopStep::Await {
                timeout: Some(timeout),
                then: self,
            },
            Stopping::Killing { pid } => StopStep::Kill { group: pid, signal: SIGKILL, then: self },
            Stopping::Reaping { pid } => StopStep::Await { timeout: None, then: self },
        }
    }

    /// The text of a failure to send the first signal to the process
    /// group of `pid`.
    pub open spec fn sigterm_failure(pid: Pid) -> Seq<char> {
        "Failed to SIGTERM -"@ + decimal(pid as nat)
    }

    /// Whether `next` is what follows on `event`.
    ///
    /// The process is asked to end. If that cannot be, because it is gone
    /// already, its end is awaited without limit. Otherwise its end is
    /// awaited for the timeout, and with a timeout of zero not at all:
    /// the process is killed at once. It is also killed when the timeout
    /// passes, and then its end is awaited without limit. The end of the
    /// process is the end of the protocol, whenever it comes. An event
    /// that the state does not await changes nothing.
    pub open spec fn follows(self, event: StopEvent, next: StopStep) -> bool {
        match (self, event) {
            (_, StopEvent::Exited(status)) => next == StopStep::Done(status),
            (Stopping::Terminating { pid, timeout }, StopEvent::Killed(Ok(()))) => next == if timeout
                == 0 {
                (Stopping::Killing { pid }).step()
            } else {
                (Stopping::Waiting { pid, timeout }).step()
            },
            (Stopping::Terminating { pid, timeout }, StopEvent::Killed(Err(errno))) => if errno
                == ESRCH {
                next == (Stopping::Reaping { pid }).step()
            } else {
                next matches StopStep::Failed(Error::Os(cause, e)) && cause@
                    == Stopping::sigterm_failure(pid) && e == errno
            },
            (Stopping::Waiting { pid, timeout }, StopEvent::TimedOut) => next == (Stopping::Killing {
                pid,
            }).step(),
            (Stopping::Killing { pid }, StopEvent::Killed(Ok(()))) => next == (Stopping::Reaping {
                pid,
            }).step(),
            (Stopping::Killing { pid }, StopEvent::Killed(Err(errno))) => next matches StopStep::Failed(
                Error::Os(cause, e),
            ) && cause@ == "Failed to kill process"@ && e == errno,
            _ => next == self.step(),
        }
    }

    fn again(self) -> (next: StopStep)
        ensures
            next == self.step(),
    {
        match self {
            Stopping::Terminating { pid, timeout } => StopStep::Kill {
                group: pid,
                signal: SIGTERM,
                then: self,
            },
            Stopping::Waiting { pid, timeout } => StopStep::Await {
                timeout: Some(timeout),
                then: self,
            },
            Stopping::Killing { pid } => StopStep::Kill { group: pid, signal: SIGKILL, then: self },
            Stopping::Reaping { pid } => StopStep::Await { timeout: None, then: self },
        }
    }

    /// Takes the outcome of the last step and says what to do next.
    pub fn next(self, event: StopEvent) -> (next: StopStep)
        ensures
            self.follows(event, next),
    {
        match (self, event) {
            (_, StopEvent::Exited(status)) => StopStep::Done(status),
            (Stopping::Terminating { pid, timeout }, StopEvent::Killed(Ok(()))) => {
                if timeout == 0 {
                    (Stopping::Killing { pid }).again()
                } else {
                    (Stopping::Waiting { pid, timeout }).again()
                }
            },
            (Stopping::Terminating { pid, timeout }, StopEvent::Killed(Err(errno))) => {
                if errno == ESRCH {
                    (Stopping::Reaping { pid }).again()
                } else {
                    let group = decimal_string(pid as u64);
                    let cause = concat3("Failed to SIGTERM -", group.as_str(), "");
                    proof {
                        reveal_strlit("");
                        assert(cause@ =~= Stopping::sigterm_failure(pid));
                    }
                    StopStep::Failed(Error::Os(cause, errno))
                }
            },
            (Stopping::Waiting { pid, timeout }, StopEvent::TimedOut) => (Stopping::Killing {
                pid,
            }).again(),
            (Stopping::Killing { pid }, StopEvent::Killed(Ok(()))) => (Stopping::Reaping {
                pid,
            }).again(),
            (Stopping::Killing { pid }, StopEvent::Killed(Err(errno))) => StopStep::Failed(
                Error::os("Failed to kill process", errno),
            ),
            (state, _) => state.again(),
        }
    }
}

impl IslandProcess {
    /// The id of a process that has not ended.
    pub fn pid(&self) -> (pid: Pid)
        requires
            !(self is Stopped),
        ensures
            self matches IslandProcess::Created { pid: p } ==> pid == p,
            self matches IslandProcess::Started { pid: p } ==> pid == p,
    {
        match self {
            IslandProcess::Created { pid } => *pid,
            IslandProcess::Started { pid } => *pid,
            IslandProcess::Stopped => 0,
        }
    }

    /// Lets a process go that is held at its checkpoint.
    pub fn start(self) -> (r: IslandProcess)
        requires
            self is Created,
        ensures
            r == (IslandProcess::Started { pid: self->Created_pid }),
    {
        match self {
            IslandProcess::Created { pid } => IslandProcess::Started { pid },
            other => other,
        }
    }

    /// Begins to stop a process that has not ended: the process group
    /// is asked to end.
    pub fn stop(self, timeout: u64) -> (r: (IslandProcess, StopStep))
        requires
            !(self is Stopped),
        ensures
            r.0 == IslandProcess::Stopped,
            self matches IslandProcess::Created { pid } ==> r.1 == (Stopping::Terminating {
                pid,
                timeout,
            }).step(),
            self matches IslandProcess::Started { pid } ==> r.1 == (Stopping::Terminating {
                pid,
                timeout,
            }).step(),
    {
        let pid = self.pid();
        (IslandProcess::Stopped, (Stopping::Terminating { pid, timeout }).again())
    }

    /// Whether a process that is given up has log forwarders to stop:
    /// one that has ended has none left.
    pub fn destroy(self) -> (forwarders: bool)
        ensures
            forwarders == !(self is Stopped),
    {
        match self {
            IslandProcess::Stopped => false,
            _ => true,
        }
    }
}

/// What the system reports of a child that was waited for.
#[derive(Debug, PartialEq, Eq, Clone, Copy, Structural)]
pub enum WaitStatus {
    /// The process exited with this code.
    Exited(Pid, i32),
    /// The process was ended by this signal; whether it dumped core.
    Signaled(Pid, u32, bool),
    /// The process was stopped by this signal.
    Stopped(Pid, u32),
    /// The traced process was stopped by an event.
    PtraceEvent(Pid, u32, i32),
    /// The traced process was stopped by a system call.
    PtraceSyscall(Pid),
    /// The process was continued.
    Continued(Pid),
    /// Nothing has changed.
    StillAlive,
}

/// What a wait for a child comes to.
#[derive(Debug, PartialEq, Eq, Clone, Copy, Structural)]
pub enum Waited {
    /// The child has ended with this status.
    Exit(ExitStatus),
    /// Nothing final was reported: wait again.
    Again,
    /// The wait failed with this error number.
    Failed(i32),
}

/// What the report of a wait means. An exit code of the signal offset or
/// more stands for the signal that ended the process inside the
/// container. Reports that the process was stopped, traced or continued
/// are passed over, and so is an interrupted call.
pub open spec fn decoded(report: Result<WaitStatus, i32>) -> Waited {
    match report {
        Ok(WaitStatus::Exited(_, code)) => if code >= SIGNAL_OFFSET {
            Waited::Exit(ExitStatus::Signaled((code - SIGNAL_OFFSET) as u32))
        } else {
            Waited::Exit(ExitStatus::Exit(code))
        },
        Ok(WaitStatus::Signaled(_, signal, _)) => Waited::Exit(ExitStatus::Signaled(signal)),
        Ok(_) => Waited::Again,
        Err(errno) => if errno == EINTR {
            Waited::Again
        } else {
            Waited::Failed(errno)
        },
    }
}

/// Decides what the report of a wait for a child means.
pub fn wait(report: Result<WaitStatus, i32>) -> (r: Waited)
    ensures
        r == decoded(report),
{
    match report {
        Ok(WaitStatus::Exited(_, code)) => {
            if SIGNAL_OFFSET <= code {
                Waited::Exit(ExitStatus::Signaled((code - SIGNAL_OFFSET) as u32))
            } else {
                Waited::Exit(ExitStatus::Exit(code))
            }
        },
        Ok(WaitStatus::Signaled(_, signal, _)) => Waited::Exit(ExitStatus::Signaled(signal)),
        Ok(_) => Waited::Again,
        Err(errno) => {
            if errno == EINTR {
                Waited::Again
            } else {
                Waited::Failed(errno)
            }
        },
    }
}

/// What came of an attempt to hand an event to the engine.
#[derive(Debug, PartialEq, Eq, Clone, Copy, Structural)]
pub enum Delivery {
    /// The engine has the event.
    Sent,
    /// The engine takes no more events.
    Closed,
    /// The engine's queue is full.
    Full,
}

/// Milliseconds to wait between two attempts to hand over an event.
pub const RETRY_MILLIS: u64 = 1;

/// Whether to try again to hand over an event, and after how many
/// milliseconds: only a full queue is worth another attempt.
pub fn retry_after(outcome: Delivery) -> (r: Option<u64>)
    ensures
        r == if outcome == Delivery::Full {
            Some(RETRY_MILLIS)
        } else {
            None::<u64>
        },
{
    match outcome {
        Delivery::Full => Some(RETRY_MILLIS),
        _ => None,
    }
}

/// The entry point of an application and the arguments of its first
/// process, which begin with the entry point. A resource has neither.
pub open spec fn arguments(manifest: ManifestView) -> Option<(Seq<char>, Seq<Seq<char>>)> {
    match manifest.init {
        Some(init) => Some(
            (
                init,
                seq![init] + match manifest.args {
                    Some(args) => args,
                    None => Seq::empty(),
                },
            ),
        ),
        None => None,
    }
}

/// Construct the entry point and the arguments of a container's first
/// process.
pub fn init_argv(manifest: &Manifest) -> (r: Option<(String, Vec<String>)>)
    ensures
        r.deep_view() == arguments(manifest@),
{
    match &manifest.init {
        None => None,
        Some(init) => {
            let mut argv: Vec<String> = Vec::new();
            argv.push(init.clone());
            if let Some(args) = &manifest.args {
                let mut i: usize = 0;
                while i < args.len()
                    invariant
                        i <= args.len(),
                        argv.deep_view() == seq![init@] + args.deep_view().take(i as int),
                    decreases args.len() - i,
                {
                    let ghost before = argv.deep_view();
                    argv.push(args[i].clone());
                    proof {
                        let all = args.deep_view();
                        assert(argv.deep_view() =~= before.push(all[i as int]));
                        assert(all.take(i + 1) =~= all.take(i as int).push(all[i as int]));
                        assert(argv.deep_view() =~= seq![init@] + all.take(i + 1));
                    }
                    i += 1;
                }
                assert(args.deep_view().take(i as int) =~= args.deep_view());
            } else {
                assert(argv.deep_view() =~= seq![init@] + Seq::<Seq<char>>::empty());
            }
            Some((init.clone(), argv))
        },
    }
}

/// One variable of an environment: the name, an equals sign, the value.
pub open spec fn variable(name: Seq<char>, value: Seq<char>) -> Seq<char> {
    name + seq!['='] + value
}

/// The environment of a container's first process: the container's name
/// and version, then the manifest's variables in their order.
pub open spec fn environment(manifest: ManifestView) -> Seq<Seq<char>> {
    seq![
        variable("NAME"@, manifest.name),
        variable("VERSION"@, manifest.version.text()),
    ] + match manifest.env {
        Some(env) => Seq::new(env.len(), |i: int| variable(env[i].0, env[i].1)),
        None => Seq::empty(),
    }
}

/// Construct the environment of a container's first process.
pub fn env(manifest: &Manifest) -> (r: Vec<String>)
    ensures
        r.deep_view() == environment(manifest@),
{
    proof {
        reveal_strlit("=");
    }
    let mut env: Vec<String> = Vec::new();
    let name = concat3("NAME", "=", manifest.name.as_str());
    assert(name@ =~= variable("NAME"@, manifest@.name));
    env.push(name);
    let version = manifest.version.to_string();
    let version = concat3("VERSION", "=", version.as_str());
    assert(version@ =~= variable("VERSION"@, manifest@.version.text()));
    env.push(version);
    let ghost head = env.deep_view();
    assert(head =~= seq![
        variable("NAME"@, manifest@.name),
        variable("VERSION"@, manifest@.version.text()),
    ]);
    if let Some(e) = &manifest.env {
        let ghost all = Seq::new(
            e.deep_view().len(),
            |i: int| variable(e.deep_view()[i].0, e.deep_view()[i].1),
        );
        let mut i: usize = 0;
        while i < e.len()
            invariant
                i <= e.len(),
                all == Seq::new(
                    e.deep_view().len(),
                    |i: int| variable(e.deep_view()[i].0, e.deep_view()[i].1),
                ),
                "="@ == seq!['='],
                env.deep_view() == head + all.take(i as int),
            decreases e.len() - i,
        {
            let ghost before = env.deep_view();
            let line = concat3(e[i].0.as_str(), "=", e[i].1.as_str());
            assert(line@ =~= all[i as int]);
            env.push(line);
            proof {
                assert(env.deep_view() =~= before.push(all[i as int]));
                assert(all.take(i + 1) =~= all.take(i as int).push(all[i as int]));
                assert(env.deep_view() =~= head + all.take(i + 1));
            }
            i += 1;
        }
        assert(all.take(i as int) =~= all);
    } else {
        assert(env.deep_view() =~= head + Seq::<Seq<char>>::empty());
    }
    env
}

/// Asks the system's group database for the group of this name, with
/// `nix::unistd::Group::from_name`, and gives the group's id. What the
/// database holds is not for this library to say: nothing is claimed of
/// the result. A name that the database does not have, and a failed
/// lookup, give no id.
#[verifier::external_body]
fn lookup_group(name: &str) -> (gid: Option<u32>) {
    match nix::unistd::Group::from_name(name) {
        Ok(Some(group)) => Some(group.gid.as_raw()),
        Ok(None) => None,
        Err(_) => None,
    }
}

/// The ids of the groups that were found, in the order of the lookups.
pub open spec fn found(lookups: Seq<Option<u32>>) -> Seq<u32>
    decreases lookups.len(),
{
    if lookups.len() == 0 {
        Seq::empty()
    } else {
        match lookups.last() {
            Some(gid) => found(lookups.drop_last()).push(gid),
            None => found(lookups.drop_last()),
        }
    }
}

proof fn lemma_found_len(lookups: Seq<Option<u32>>)
    ensures
        found(lookups).len() <= lookups.len(),
    decreases lookups.len(),
{
    if lookups.len() > 0 {
        lemma_found_len(lookups.drop_last());
    }
}

/// The supplementary group ids of a container, from what the lookup of
/// each of its group names gave: a group that was not found is skipped.
pub fn found_groups(lookups: &Vec<Option<u32>>) -> (gids: Vec<u32>)
    ensures
        gids@ == found(lookups@),
{
    let mut gids: Vec<u32> = Vec::new();
    let mut i: usize = 0;
    while i < lookups.len()
        invariant
            i <= lookups.len(),
            gids@ == found(lookups@.take(i as int)),
        decreases lookups.len() - i,
    {
        assert(lookups@.take(i + 1).drop_last() =~= lookups@.take(i as int));
        if let Some(gid) = lookups[i] {
            gids.push(gid);
        }
        i += 1;
    }
    assert(lookups@.take(i as int) =~= lookups@);
    gids
}

/// Generate the list of supplementary group ids of a container. Each
/// group name of the manifest is looked up in the system's group
/// database, and the groups that it does not have are skipped. This has
/// to happen before the container's process is made, which cannot see
/// the database.
pub fn groups(manifest: &Manifest) -> (gids: Vec<u32>)
    ensures
        match manifest@.suppl_groups {
            Some(names) => gids.len() <= names.len(),
            None => gids.len() == 0,
        },
{
    match &manifest.suppl_groups {
        None => Vec::new(),
        Some(names) => {
            let mut lookups: Vec<Option<u32>> = Vec::new();
            let mut i: usize = 0;
            while i < names.len()
                invariant
                    i <= names.len(),
                    lookups.len() == i,
                decreases names.len() - i,
            {
                lookups.push(lookup_group(names[i].as_str()));
                i += 1;
            }
            proof {
                lemma_found_len(lookups@);
            }
            found_groups(&lookups)
        },
    }
}

/// The system calls that a container may make, each with its argument
/// rule: what the filter of the container's process is compiled from.
pub fn seccomp_filter(container: &MountedContainer) -> (r: Option<Vec<(String, String)>>)
    ensures
        r.deep_view() == container@.manifest.seccomp,
{
    match &container.manifest.seccomp {
        Some(rules) => Some(clone_pairs(rules)),
        None => None,
    }
}

/// The list without the file descriptor `fd`.
pub open spec fn without(fds: Seq<i32>, fd: i32) -> Seq<i32>
    decreases fds.len(),
{
    if fds.len() == 0 {
        Seq::empty()
    } else if fds.last() == fd {
        without(fds.drop_last(), fd)
    } else {
        without(fds.drop_last(), fd).push(fds.last())
    }
}

/// What is mounted at one place of a container's file system.
#[derive(Clone, Copy, Debug, PartialEq, Eq, Structural)]
pub enum MountKind {
    /// A directory that exists elsewhere, for reading only or not.
    Bind { read_only: bool },
    /// A memory file system of this size in bytes.
    Tmpfs { size: u64 },
}

/// One mount that the first process of a container makes before it
/// gives up its rights.
#[derive(Debug, PartialEq, Eq)]
pub struct MountOp {
    /// What is mounted: a directory, or the name of a file system.
    pub source: String,
    /// Where it is mounted.
    pub target: String,
    pub kind: MountKind,
}

pub struct MountOpView {
    pub source: Seq<char>,
    pub target: Seq<char>,
    pub kind: MountKind,
}

impl View for MountOp {
    type V = MountOpView;

    open spec fn view(&self) -> MountOpView {
        MountOpView { source: self.source@, target: self.target@, kind: self.kind }
    }
}

impl DeepView for MountOp {
    type V = MountOpView;

    open spec fn deep_view(&self) -> MountOpView {
        self@
    }
}

/// What one entry of a mount table comes to for the container with
/// this identity and root. Every target lies below the container's
/// root. A directory of the host is bound as it is. The persistent
/// data is the container's own directory below the data directory. A
/// resource is a directory below the root of the resource container,
/// for reading only.
pub open spec fn mount_of(
    run_dir: Seq<char>,
    data_dir: Seq<char>,
    container: ContainerId,
    root: Seq<char>,
    target: Seq<char>,
    mount: MountView,
) -> MountOpView {
    match mount {
        MountView::Bind { host, writable } => MountOpView {
            source: host,
            target: root + target,
            kind: MountKind::Bind { read_only: !writable },
        },
        MountView::Persist => MountOpView {
            source: mount_point(data_dir, container),
            target: root + target,
            kind: MountKind::Bind { read_only: false },
        },
        MountView::Resource { name, version, dir } => MountOpView {
            source: mount_point(run_dir, ContainerId { name, version }) + dir,
            target: root + target,
            kind: MountKind::Bind { read_only: true },
        },
        MountView::Tmpfs { size } => MountOpView {
            source: "tmpfs"@,
            target: root + target,
            kind: MountKind::Tmpfs { size },
        },
    }
}

/// The mounts of a container, in the order of its mount table.
pub open spec fn mounts_of(run_dir: Seq<char>, data_dir: Seq<char>, container: MountedView) -> Seq<
    MountOpView,
> {
    Seq::new(
        container.manifest.mounts.len(),
        |i: int|
            mount_of(
                run_dir,
                data_dir,
                container.container,
                container.root,
                container.manifest.mounts[i].0,
                container.manifest.mounts[i].1,
            ),
    )
}

/// Prepares the mount table of a container: what its first process
/// mounts, and where, given the runtime's run and data directories.
pub fn prepare_mounts(run_dir: &str, data_dir: &str, container: &MountedContainer) -> (r: Vec<
    MountOp,
>)
    ensures
        r.deep_view() == mounts_of(run_dir@, data_dir@, container@),
{
    proof {
        reveal_strlit("/");
        reveal_strlit("");
    }
    let mut r: Vec<MountOp> = Vec::new();
    let mut i: usize = 0;
    while i < container.manifest.mounts.len()
        invariant
            i <= container.manifest.mounts.len(),
            "/"@ == seq!['/'],
            ""@ == Seq::<char>::empty(),
            r.len() == i,
            forall|j: int|
                0 <= j < i ==> (#[trigger] r[j])@ == mounts_of(run_dir@, data_dir@, container@)[j],
        decreases container.manifest.mounts.len() - i,
    {
        let entry = &container.manifest.mounts[i];
        assert(container@.manifest.mounts[i as int] == entry.deep_view());
        let target = concat3(container.root.as_str(), entry.0.as_str(), "");
        assert(target@ =~= container@.root + entry.0@);
        let op = match &entry.1 {
            Mount::Bind { host, writable } => MountOp {
                source: host.clone(),
                target,
                kind: MountKind::Bind { read_only: !*writable },
            },
            Mount::Persist => {
                let name = container.container.to_string();
                let source = concat3(data_dir, "/", name.as_str());
                assert(source@ =~= mount_point(data_dir@, container@.container));
                MountOp { source, target, kind: MountKind::Bind { read_only: false } }
            },
            Mount::Resource { name, version, dir } => {
                let resource = crate::model::Container::new(name.clone(), *version);
                let text = resource.to_string();
                let mut source = concat3(run_dir, "/", text.as_str());
                source.append(dir.as_str());
                assert(source@ =~= mount_point(
                    run_dir@,
                    ContainerId { name: name@, version: *version },
                ) + dir@);
                MountOp { source, target, kind: MountKind::Bind { read_only: true } }
            },
            Mount::Tmpfs { size } => MountOp {
                source: String::from_str("tmpfs"),
                target,
                kind: MountKind::Tmpfs { size: *size },
            },
        };
        r.push(op);
        i += 1;
    }
    assert(r.deep_view() =~= mounts_of(run_dir@, data_dir@, container@));
    r
}

/// What the first process of a container is made with.
#[derive(Debug, PartialEq, Eq)]
pub struct Launch {
    /// The entry point.
    pub init: String,
    pub argv: Vec<String>,
    pub env: Vec<String>,
    /// Supplementary group ids.
    pub groups: Vec<u32>,
    pub uid: Option<u32>,
    pub gid: Option<u32>,
    /// The allowed system calls, if the container is confined.
    pub seccomp: Option<Vec<(String, String)>>,
    /// The directory that becomes the root of the process.
    pub root: String,
    /// What is mounted below the root before it becomes the root, in
    /// this order.
    pub mounts: Vec<MountOp>,
    /// File descriptors to close in the process.
    pub fds: Vec<i32>,
    /// The descriptor on which the process sees the runtime's end.
    pub tripwire: i32,
    /// The process gets a process id namespace of its own.
    pub new_pid_namespace: bool,
    /// The process gets a mount namespace of its own.
    pub new_mount_namespace: bool,
    /// The signal that tells the runtime of the end of the process.
    pub exit_signal: u32,
}

impl Launch {
    /// Where the entry point lies before the container's root becomes
    /// the root: the root, and behind it the path of the entry point.
    pub fn entry_point(&self) -> (path: String)
        ensures
            path@ == self.root@ + self.init@,
    {
        proof {
            reveal_strlit("");
        }
        let path = concat3(self.root.as_str(), self.init.as_str(), "");
        assert(path@ =~= self.root@ + self.init@);
        path
    }
}

/// The launcher. It holds the pipe whose end tells the containers'
/// processes that the runtime is gone.
#[derive(Debug, PartialEq, Eq)]
pub struct Island {
    /// The directory under which containers are mounted.
    pub run_dir: String,
    /// The directory under which containers keep their data.
    pub data_dir: String,
    /// Read end of the tripwire pipe, which the processes inherit.
    pub tripwire_read: i32,
    /// Write end of the tripwire pipe. It stays open while the runtime
    /// lives.
    pub tripwire_write: i32,
}

impl Island {
    /// A launcher with its directories and its tripwire pipe.
    pub fn start(run_dir: String, data_dir: String, tripwire_read: i32, tripwire_write: i32) -> (island:
        Island)
        ensures
            island == (Island { run_dir, data_dir, tripwire_read, tripwire_write }),
    {
        Island { run_dir, data_dir, tripwire_read, tripwire_write }
    }

    /// Ends the launcher: the two ends of the tripwire pipe are to be
    /// closed.
    pub fn shutdown(self) -> (fds: (i32, i32))
        ensures
            fds == (self.tripwire_read, self.tripwire_write),
    {
        (self.tripwire_read, self.tripwire_write)
    }

    /// Whether `launch` is what the first process of `container` is
    /// made with, given the file descriptors that are open and the
    /// supplementary group ids: the manifest's entry point, arguments,
    /// environment, users and rules; the container's root and mounts;
    /// new namespaces for process ids and mounts; and every descriptor
    /// closed but the tripwire.
    pub open spec fn launches(
        self,
        container: MountedView,
        fds: Seq<i32>,
        groups: Seq<u32>,
        launch: Launch,
    ) -> bool {
        &&& Some((launch.init@, launch.argv.deep_view())) == arguments(container.manifest)
        &&& launch.env.deep_view() == environment(container.manifest)
        &&& launch.groups@ == groups
        &&& launch.uid == container.manifest.uid
        &&& launch.gid == container.manifest.gid
        &&& launch.seccomp.deep_view() == container.manifest.seccomp
        &&& launch.root@ == container.root
        &&& launch.mounts.deep_view() == mounts_of(self.run_dir@, self.data_dir@, container)
        &&& launch.fds@ == without(fds, self.tripwire_read)
        &&& launch.tripwire == self.tripwire_read
        &&& launch.new_pid_namespace
        &&& launch.new_mount_namespace
        &&& launch.exit_signal == SIGCHLD
    }

    /// Says what the first process of `container` is made with, given
    /// the file descriptors that are open and the supplementary group
    /// ids. A resource container has no process.
    pub fn prepare(&self, container: &MountedContainer, fds: &Vec<i32>, groups: Vec<u32>) -> (r:
        Result<Launch, Error>)
        ensures
            match r {
                Ok(launch) => !container@.manifest.is_resource() && self.launches(
                    container@,
                    fds@,
                    groups@,
                    launch,
                ),
                Err(e) => container@.manifest.is_resource() && e == Error::StartContainerResource(
                    container.container,
                ),
            },
    {
        let (init, argv) = match init_argv(&container.manifest) {
            None => {
                return Err(Error::StartContainerResource(container.container.clone()));
            },
            Some(a) => a,
        };
        let mut keep: Vec<i32> = Vec::new();
        let mut i: usize = 0;
        while i < fds.len()
            invariant
                i <= fds.len(),
                keep@ == without(fds@.take(i as int), self.tripwire_read),
            decreases fds.len() - i,
        {
            assert(fds@.take(i + 1).drop_last() =~= fds@.take(i as int));
            if fds[i] != self.tripwire_read {
                keep.push(fds[i]);
            }
            i += 1;
        }
        assert(fds@.take(i as int) =~= fds@);
        Ok(
            Launch {
                init,
                argv,
                env: env(&container.manifest),
                groups,
                uid: container.manifest.uid,
                gid: container.manifest.gid,
                seccomp: seccomp_filter(container),
                root: container.root.clone(),
                mounts: prepare_mounts(self.run_dir.as_str(), self.data_dir.as_str(), container),
                fds: keep,
                tripwire: self.tripwire_read,
                new_pid_namespace: true,
                new_mount_namespace: true,
                exit_signal: SIGCHLD,
            },
        )
    }

    /// Says what the first process of `container` is made with, after
    /// looking up the container's supplementary groups in the system's
    /// group database: whichever groups are found, the rest is as
    /// `prepare` says.
    pub fn create(&self, container: &MountedContainer, fds: &Vec<i32>) -> (r: Result<Launch, Error>)
        ensures
            match r {
                Ok(launch) => !container@.manifest.is_resource() && self.launches(
                    container@,
                    fds@,
                    launch.groups@,
                    launch,
                ) && match container@.manifest.suppl_groups {
                    Some(names) => launch.groups.len() <= names.len(),
                    None => launch.groups.len() == 0,
                },
                Err(e) => container@.manifest.is_resource() && e == Error::StartContainerResource(
                    container.container,
                ),
            },
    {
        let groups = groups(&container.manifest);
        self.prepare(container, fds, groups)
    }
}

} // verus!
