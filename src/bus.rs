//! The command bus: callers on any thread hand commands to the one context
//! that owns the configuration daemon's client, and each gets back exactly
//! one reply.
use vstd::prelude::*;
use tokio::sync::mpsc::UnboundedSender;
use tokio::sync::oneshot;
use crate::model::{Connection, NetDevice};

verus! {

#[verifier::external_type_specification]
#[verifier::external_body]
#[verifier::reject_recursive_types(T)]
pub struct ExUnboundedSender<T>(UnboundedSender<T>);

#[verifier::external_type_specification]
#[verifier::external_body]
#[verifier::reject_recursive_types(T)]
pub struct ExOneshotSender<T>(oneshot::Sender<T>);

#[verifier::external_type_specification]
#[verifier::external_body]
#[verifier::reject_recursive_types(T)]
pub struct ExOneshotReceiver<T>(oneshot::Receiver<T>);

#[verifier::external_type_specification]
#[verifier::external_body]
pub struct ExRecvError(oneshot::error::RecvError);

/// A command for the configuration daemon.
pub enum NetworkCommand {
    ListDevices,
    GetConnection(String),
    ListConnections,
    UpdateConnection(Connection),
    /// Connection uuid, new name.
    RenameConnection(String, String),
    /// Connection name, interface name or MAC address.
    CreateWiredConnection(String, String),
    /// Connection uuid.
    Reactivate(String),
    /// Interface name, whether the daemon should manage it.
    SetManage(String, bool),
    /// Connection name.
    DeleteConnection(String),
    GetHostname,
    SetHostname(String),
    GetNetworking,
    SetNetworking(bool),
}

/// What a command returns when it succeeds.
pub enum NetworkResponse {
    Devices(Vec<NetDevice>),
    Connection(Connection),
    Connections(Vec<Connection>),
    /// The uuid of a created connection; empty where none could be found.
    Uuid(String),
    Hostname(String),
    Networking(bool),
    Success,
}

/// Why a command failed.
pub enum NetworkError {
    /// The context that owns the daemon's client has stopped.
    WorkerUnavailable,
    /// The daemon is not running or cannot be reached.
    DaemonUnreachable,
    /// No object has the given uuid or name.
    NotFound(String),
    /// A bounded operation did not complete in time.
    TimeoutExceeded,
    /// A payload could not be used.
    InvalidArgument(String),
    /// The daemon refused or failed the operation.
    Failed(String),
    /// The reply does not fit the command.
    UnexpectedResponse,
}

pub type Reply = Result<NetworkResponse, NetworkError>;

/// A command with the one-shot channel its reply goes back through.
pub struct NetworkRequest {
    pub responder: oneshot::Sender<Reply>,
    pub command: NetworkCommand,
}

impl NetworkRequest {
    pub fn new(responder: oneshot::Sender<Reply>, command: NetworkCommand) -> (r: NetworkRequest)
        ensures
            r.responder == responder,
            r.command == command,
    {
        NetworkRequest { responder, command }
    }
}

/// The callers' handle on the bus: the sending side of the worker's queue.
pub struct State {
    sender: UnboundedSender<NetworkRequest>,
}

impl State {
    /// The queue the handle sends to.
    pub closed spec fn queue(&self) -> UnboundedSender<NetworkRequest> {
        self.sender
    }

    pub fn new(sender: UnboundedSender<NetworkRequest>) -> (r: State)
        ensures
            r.queue() == sender,
    {
        State { sender }
    }
}

/// Relies on `tokio::sync::oneshot::channel`: a connected pair of halves.
#[verifier::external_body]
fn reply_channel() -> (r: (oneshot::Sender<Reply>, oneshot::Receiver<Reply>)) {
    oneshot::channel()
}

/// Relies on `tokio::sync::mpsc::UnboundedSender::send`: queues the request
/// without waiting, and fails only where the worker's receiving side is
/// gone.
#[verifier::external_body]
fn enqueue(sender: &UnboundedSender<NetworkRequest>, request: NetworkRequest) -> (r: bool) {
    sender.send(request).is_ok()
}

/// Relies on `tokio::sync::oneshot::Sender::send`: hands the reply to the
/// waiting caller; where the caller has gone, the reply is dropped.
#[verifier::external_body]
fn deliver(responder: oneshot::Sender<Reply>, reply: Reply) {
    let _ = responder.send(reply);
}

/// Queues a command for the worker and returns, without waiting, the
/// receiver that its one reply will come through. Fails with
/// `WorkerUnavailable` where the worker has stopped.
pub fn submit(state: &State, command: NetworkCommand) -> (r: Result<oneshot::Receiver<Reply>, NetworkError>)
    ensures
        r matches Err(e) ==> e == NetworkError::WorkerUnavailable,
{
    let (responder, receiver) = reply_channel();
    if enqueue(&state.sender, NetworkRequest::new(responder, command)) {
        Ok(receiver)
    } else {
        Err(NetworkError::WorkerUnavailable)
    }
}

/// Sends the reply of a request back to its caller.
pub fn respond(request: NetworkRequest, reply: Reply) {
    deliver(request.responder, reply);
}

/// What a caller's wait for a reply comes to: the reply, or
/// `WorkerUnavailable` where the worker dropped the request unanswered.
pub fn settle(received: Result<Reply, oneshot::error::RecvError>) -> (r: Reply)
    ensures
        received matches Ok(x) ==> r == x,
        received is Err ==> r == Err::<NetworkResponse, NetworkError>(NetworkError::WorkerUnavailable),
{
    match received {
        Ok(x) => x,
        Err(_) => Err(NetworkError::WorkerUnavailable),
    }
}

/// A connection is created for a device named by its MAC address (a text
/// with a colon) rather than by its interface name.
pub fn targets_mac(device: &str) -> (r: bool)
    ensures
        r == device@.contains(':'),
{
    let n = device.unicode_len();
    let mut i: usize = 0;
    while i < n
        invariant
            n == device@.len(),
            i <= n,
            forall|j: int| 0 <= j < i ==> device@[j] != ':',
        decreases n - i,
    {
        if device.get_char(i) == ':' {
            return true;
        }
        i = i + 1;
    }
    false
}

/// The time a connection's creation is waited for, in milliseconds.
pub const CREATE_TIMEOUT_MS: u64 = 1000;

/// How the daemon answered a request to create a connection.
pub enum CreateOutcome {
    /// It created the connection in time; the uuid it reported, if any.
    Created(Option<String>),
    /// It did not answer in time.
    TimedOut,
    /// It refused or failed the request; why.
    Failed(String),
}

/// Whether the connection must be looked up by name after the request to
/// create it: only after a time-out, as the creation may have completed
/// after the deadline.
pub fn needs_lookup(outcome: &CreateOutcome) -> (r: bool)
    ensures
        r == (outcome is TimedOut),
{
    match outcome {
        CreateOutcome::TimedOut => true,
        _ => false,
    }
}

/// The uuid of a created connection: the one the daemon reported, else
/// after a time-out the one of the connection found under the intended
/// name, else the empty string. A failed request is an error.
pub fn created_uuid(outcome: CreateOutcome, found: Option<String>) -> (r: Result<String, NetworkError>)
    ensures
        outcome matches CreateOutcome::Created(Some(u)) ==> (r matches Ok(x) && x@ == u@),
        outcome matches CreateOutcome::Created(None) ==> (r matches Ok(x) && x@ == Seq::<char>::empty()),
        outcome is TimedOut ==> (r matches Ok(x) && x@ == (match found {
            Some(u) => u@,
            None => Seq::<char>::empty(),
        })),
        outcome matches CreateOutcome::Failed(m) ==> r == Err::<String, NetworkError>(NetworkError::Failed(m)),
{
    match outcome {
        CreateOutcome::Created(Some(u)) => Ok(u),
        CreateOutcome::Created(None) => Ok(String::new()),
        CreateOutcome::TimedOut => match found {
            Some(u) => Ok(u),
            None => Ok(String::new()),
        },
        CreateOutcome::Failed(m) => Err(NetworkError::Failed(m)),
    }
}

} // verus!
