//! The client's side of the network: the login handshake and the decisions
//! of the two worker loops. The socket and the queues stay outside; this
//! module is told what came of each read and says what to do next.

use crate::protocol::{ClientMessage, Command, Reply, ServerMessage};
use crate::ui::UIError;
use vstd::prelude::*;
use vstd::std_specs::convert::FromSpecImpl;
use vstd::string::StringExecFns;

verus! {

/// Milliseconds that one read or one wait on the queue may take.
pub const RECEIVE_TIMEOUT_MS: u64 = 200;

/// Milliseconds after which a login without a reply is given up.
pub const LOGIN_TIMEOUT_MS: u64 = 10000;

/// What the operator gives the client to start with.
#[derive(Debug, Clone, PartialEq, Eq)]
pub struct Args {
    pub server_address: String,
    pub port: u16,
    pub password: String,
    pub username: String,
}

/// Why a login failed.
#[derive(Debug, Clone, PartialEq, Eq)]
pub enum LoginError {
    /// The server refused, for the cause it gave.
    InvalidCredentials(String),
    /// The server answered with something that is no answer to a login.
    InvalidResponse,
    /// The server did not answer in time.
    ServerTimeout,
}

/// Why a login failed, as plain mathematical data.
pub enum LoginFailure {
    InvalidCredentials(Seq<char>),
    InvalidResponse,
    ServerTimeout,
}

impl View for LoginError {
    type V = LoginFailure;

    open spec fn view(&self) -> LoginFailure {
        match *self {
            LoginError::InvalidCredentials(cause) => LoginFailure::InvalidCredentials(cause@),
            LoginError::InvalidResponse => LoginFailure::InvalidResponse,
            LoginError::ServerTimeout => LoginFailure::ServerTimeout,
        }
    }
}

/// The error of std's input and output, carried through and never looked
/// into.
#[verifier::external_type_specification]
#[verifier::external_body]
pub struct ExIoError(std::io::Error);

/// The error of `serde_json`, carried through and never looked into.
#[verifier::external_type_specification]
#[verifier::external_body]
pub struct ExJsonError(serde_json::Error);

/// Why the connection to the server could not be set up.
#[derive(Debug)]
pub enum NetworkSetupError {
    LoginError(LoginError),
    DeserializationError(serde_json::Error),
    TcpError(std::io::Error),
}

impl From<serde_json::Error> for NetworkSetupError {
    fn from(err: serde_json::Error) -> (error: Self) {
        NetworkSetupError::DeserializationError(err)
    }
}

impl FromSpecImpl<serde_json::Error> for NetworkSetupError {
    open spec fn obeys_from_spec() -> bool {
        true
    }

    open spec fn from_spec(err: serde_json::Error) -> Self {
        NetworkSetupError::DeserializationError(err)
    }
}

impl From<std::io::Error> for NetworkSetupError {
    fn from(err: std::io::Error) -> (error: Self) {
        NetworkSetupError::TcpError(err)
    }
}

impl FromSpecImpl<std::io::Error> for NetworkSetupError {
    open spec fn obeys_from_spec() -> bool {
        true
    }

    open spec fn from_spec(err: std::io::Error) -> Self {
        NetworkSetupError::TcpError(err)
    }
}

impl From<LoginError> for NetworkSetupError {
    fn from(err: LoginError) -> (error: Self) {
        NetworkSetupError::LoginError(err)
    }
}

impl FromSpecImpl<LoginError> for NetworkSetupError {
    open spec fn obeys_from_spec() -> bool {
        true
    }

    open spec fn from_spec(err: LoginError) -> Self {
        NetworkSetupError::LoginError(err)
    }
}

/// Why the client came to an end.
#[derive(Debug)]
pub enum ClientError {
    ConnectionError(std::io::Error),
    NetworkSetupError(NetworkSetupError),
    LoginError(LoginError),
    UIError(UIError),
}

impl From<std::io::Error> for ClientError {
    fn from(err: std::io::Error) -> (error: Self) {
        ClientError::ConnectionError(err)
    }
}

impl FromSpecImpl<std::io::Error> for ClientError {
    open spec fn obeys_from_spec() -> bool {
        true
    }

    open spec fn from_spec(err: std::io::Error) -> Self {
        ClientError::ConnectionError(err)
    }
}

impl From<NetworkSetupError> for ClientError {
    fn from(err: NetworkSetupError) -> (error: Self) {
        ClientError::NetworkSetupError(err)
    }
}

impl FromSpecImpl<NetworkSetupError> for ClientError {
    open spec fn obeys_from_spec() -> bool {
        true
    }

    open spec fn from_spec(err: NetworkSetupError) -> Self {
        ClientError::NetworkSetupError(err)
    }
}

impl From<LoginError> for ClientError {
    fn from(err: LoginError) -> (error: Self) {
        ClientError::LoginError(err)
    }
}

impl FromSpecImpl<LoginError> for ClientError {
    open spec fn obeys_from_spec() -> bool {
        true
    }

    open spec fn from_spec(err: LoginError) -> Self {
        ClientError::LoginError(err)
    }
}

impl From<UIError> for ClientError {
    fn from(err: UIError) -> (error: Self) {
        ClientError::UIError(err)
    }
}

impl FromSpecImpl<UIError> for ClientError {
    open spec fn obeys_from_spec() -> bool {
        true
    }

    open spec fn from_spec(err: UIError) -> Self {
        ClientError::UIError(err)
    }
}

/// The one message that opens the handshake.
pub fn login_message(username: &str, server_password: &str) -> (message: ClientMessage)
    ensures
        message@ == (Command::Login { username: username@, password: server_password@ }),
{
    ClientMessage::Login {
        username: String::from_str(username),
        password: String::from_str(server_password),
    }
}

/// What the one reply to a login means.
pub open spec fn login_verdict(reply: Reply) -> Result<(), LoginFailure> {
    match reply {
        Reply::LoginSuccessful => Ok(()),
        Reply::Error { cause } => Err(LoginFailure::InvalidCredentials(cause)),
        _ => Err(LoginFailure::InvalidResponse),
    }
}

/// The view of a verdict.
pub open spec fn verdict_view(verdict: Result<(), LoginError>) -> Result<(), LoginFailure> {
    match verdict {
        Ok(()) => Ok(()),
        Err(error) => Err(error@),
    }
}

/// Judges the reply to a login: success; a refusal with the server's cause;
/// or, for any other message, a breach of the protocol.
pub fn judge_login_reply(reply: ServerMessage) -> (verdict: Result<(), LoginError>)
    ensures
        verdict_view(verdict) == login_verdict(reply@),
{
    match reply {
        ServerMessage::LoginSuccessful => Ok(()),
        ServerMessage::Error { cause } => Err(LoginError::InvalidCredentials(cause)),
        _ => Err(LoginError::InvalidResponse),
    }
}

/// Number of silent reads after which the login is given up: as many as
/// fill `LOGIN_TIMEOUT_MS`.
pub open spec fn login_polls() -> nat {
    (LOGIN_TIMEOUT_MS / RECEIVE_TIMEOUT_MS) as nat
}

/// A login that waits for its reply, and how long it has waited.
#[derive(Debug, Clone, Copy, PartialEq, Eq)]
pub struct LoginAttempt {
    ticks: u64,
}

impl LoginAttempt {
    /// Number of reads so far that brought nothing.
    pub closed spec fn ticks(&self) -> nat {
        self.ticks as nat
    }

    /// The count never passes the number of reads that the bound allows.
    pub closed spec fn wf(&self) -> bool {
        self.ticks <= LOGIN_TIMEOUT_MS / RECEIVE_TIMEOUT_MS
    }

    /// A login that has just been sent.
    pub fn new() -> (attempt: Self)
        ensures
            attempt.wf(),
            attempt.ticks() == 0,
    {
        LoginAttempt { ticks: 0 }
    }

    /// Milliseconds waited so far.
    pub fn waited_ms(&self) -> (waited: u64)
        requires
            self.wf(),
        ensures
            waited == self.ticks() * RECEIVE_TIMEOUT_MS,
    {
        self.ticks * RECEIVE_TIMEOUT_MS
    }

    /// What one attempt to receive the reply does to the login `self`, and
    /// how the login ends, if it ends there. A message ends it: with
    /// success, or with the failure that `login_verdict` names. A read that
    /// brought nothing is counted as `on_silence` counts it, and ends the
    /// login with `ServerTimeout` once the bound is filled. A failure of the
    /// transport ends it with that failure.
    pub open spec fn received(
        &self,
        after: LoginAttempt,
        reception: Result<Option<ServerMessage>, std::io::Error>,
        outcome: Option<Result<(), NetworkSetupError>>,
    ) -> bool {
        match reception {
            Ok(Some(message)) => {
                &&& after == *self
                &&& match login_verdict(message@) {
                    Ok(()) => outcome == Some(Ok::<(), NetworkSetupError>(())),
                    Err(failure) => {
                        &&& outcome matches Some(Err(NetworkSetupError::LoginError(error)))
                        &&& error@ == failure
                    },
                }
            },
            Ok(None) => {
                &&& after.ticks() == if self.ticks() < login_polls() {
                    self.ticks() + 1
                } else {
                    self.ticks()
                }
                &&& if after.ticks() >= login_polls() {
                    outcome == Some(
                        Err::<(), NetworkSetupError>(
                            NetworkSetupError::LoginError(LoginError::ServerTimeout),
                        ),
                    )
                } else {
                    outcome is None
                }
            },
            Err(failure) => {
                &&& after == *self
                &&& outcome == Some(
                    Err::<(), NetworkSetupError>(NetworkSetupError::TcpError(failure)),
                )
            },
        }
    }

    /// Takes what one attempt to receive the reply gave, as `received`
    /// says: the login is over with the result that comes back, or goes on
    /// where nothing comes back.
    pub fn on_receive(
        &mut self,
        reception: Result<Option<ServerMessage>, std::io::Error>,
    ) -> (outcome: Option<Result<(), NetworkSetupError>>)
        requires
            old(self).wf(),
        ensures
            final(self).wf(),
            old(self).received(*final(self), reception, outcome),
    {
        match reception {
            Ok(Some(message)) => match judge_login_reply(message) {
                Ok(()) => Some(Ok(())),
                Err(error) => Some(Err(NetworkSetupError::LoginError(error))),
            },
            Ok(None) => match self.on_silence() {
                Some(error) => Some(Err(NetworkSetupError::LoginError(error))),
                None => None,
            },
            Err(failure) => Some(Err(NetworkSetupError::TcpError(failure))),
        }
    }

    /// Notes a read that brought nothing. The login is given up, with
    /// `ServerTimeout`, once the reads without a reply fill the bound;
    /// until then it goes on waiting.
    pub fn on_silence(&mut self) -> (verdict: Option<LoginError>)
        requires
            old(self).wf(),
        ensures
            final(self).wf(),
            old(self).ticks() < login_polls() ==> final(self).ticks() == old(self).ticks() + 1,
            old(self).ticks() >= login_polls() ==> final(self).ticks() == old(self).ticks(),
            final(self).ticks() < login_polls() ==> verdict is None,
            final(self).ticks() >= login_polls() ==> verdict == Some(LoginError::ServerTimeout),
    {
        if self.ticks < LOGIN_TIMEOUT_MS / RECEIVE_TIMEOUT_MS {
            self.ticks = self.ticks + 1;
        }
        if self.ticks * RECEIVE_TIMEOUT_MS >= LOGIN_TIMEOUT_MS {
            Some(LoginError::ServerTimeout)
        } else {
            None
        }
    }
}

} // verus!
