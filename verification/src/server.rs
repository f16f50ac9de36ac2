//! The server's side of a connection: the start-up password, the dispatch
//! of commands to the registry, and what a connection does with each thing
//! it reads.

use crate::chat::{all_listings, holds_username, username_taken_cause, Chat};
use crate::protocol::{
    listing_of, replies, replies_in_step, ClientMessage, Command, PeerAddr, Reply,
    ServerMessage,
};
use rand::Rng;
use vstd::prelude::*;

verus! {

/// Length of a password that the server makes up.
pub const PASSWORD_LENGTH: usize = 16;

/// Cause reported for a login with the wrong password.
pub open spec fn invalid_password_cause() -> Seq<char> {
    "Invalid password provided. Please try again."@
}

/// Cause reported for a payload that is no message.
pub open spec fn unparsed_cause() -> Seq<char> {
    "Could not parse that message"@
}

/// A letter of the Latin alphabet, capital or small, or a digit.
pub open spec fn is_alphanumeric(c: char) -> bool {
    let code = c as u32;
    ||| 48 <= code <= 57
    ||| 65 <= code <= 90
    ||| 97 <= code <= 122
}

/// Draws `length` characters from the thread's random generator with
/// `rand`'s `Rng::sample_iter` over `Alphanumeric`. The text is not
/// determined; trusted of it is only that it has `length` characters, each
/// a Latin letter or a digit.
#[verifier::external_body]
fn random_alphanumeric(length: usize) -> (text: String)
    ensures
        text@.len() == length,
        forall|i: int| 0 <= i < text@.len() ==> is_alphanumeric(#[trigger] text@[i]),
{
    rand::thread_rng().sample_iter(&rand::distributions::Alphanumeric).take(length).map(
        char::from,
    ).collect()
}

/// What the operator gives the server to start with.
#[derive(Debug, Clone, PartialEq, Eq)]
pub struct Args {
    pub ip_address: String,
    pub port: u16,
    /// Where none is given, the server makes one up.
    pub password: Option<String>,
}

impl Args {
    /// The same settings with `password` as the password.
    pub fn use_password(self, password: String) -> (settled: Args)
        ensures
            settled.ip_address == self.ip_address,
            settled.port == self.port,
            settled.password == Some(password),
    {
        Args { ip_address: self.ip_address, port: self.port, password: Some(password) }
    }

    /// Settles the password before the server starts: the one given, else a
    /// new random one of `PASSWORD_LENGTH` letters and digits. The flag says
    /// that the password was made up, and so has to be shown once.
    pub fn with_password(self) -> (settled: (Args, bool))
        ensures
            settled.0.ip_address == self.ip_address,
            settled.0.port == self.port,
            settled.0.password is Some,
            settled.1 == (self.password is None),
            self.password is Some ==> settled.0.password == self.password,
            self.password is None ==> {
                let made = settled.0.password->0@;
                &&& made.len() == PASSWORD_LENGTH
                &&& forall|i: int| 0 <= i < made.len() ==> is_alphanumeric(#[trigger] made[i])
            },
    {
        if self.password.is_some() {
            (self, false)
        } else {
            let password = random_alphanumeric(PASSWORD_LENGTH);
            (self.use_password(password), true)
        }
    }
}

/// The server: where it listens, its password, and the registry.
pub struct Server {
    ip_address: String,
    port: u16,
    password: String,
    chat: Chat,
}

impl Server {
    /// The registry.
    pub closed spec fn chat(&self) -> Chat {
        self.chat
    }

    /// The password that a login has to give.
    pub closed spec fn password(&self) -> Seq<char> {
        self.password@
    }

    /// Where the server listens: the address and the port.
    pub closed spec fn listens_at(&self) -> (Seq<char>, u16) {
        (self.ip_address@, self.port)
    }

    /// `after` has the settings of `self`: where it listens, and the
    /// password.
    pub open spec fn same_settings(&self, after: Server) -> bool {
        after.password() == self.password() && after.listens_at() == self.listens_at()
    }

    /// The registry is sound.
    pub open spec fn wf(&self) -> bool {
        self.chat().wf()
    }

    /// What a login does to the registry `before`, and what is answered. A
    /// wrong password is answered with an error and changes nothing.
    /// Otherwise the username is bound as `Chat::username_set` says, and
    /// success is answered as a successful login.
    pub open spec fn logged_in(
        &self,
        after: Server,
        addr: PeerAddr,
        username: Seq<char>,
        password: Seq<char>,
        answer: Reply,
    ) -> bool {
        &&& self.same_settings(after)
        &&& after.chat().rooms() == self.chat().rooms()
        &&& if password != self.password() {
            &&& answer == Reply::Error { cause: invalid_password_cause() }
            &&& after.chat().users() == self.chat().users()
        } else if holds_username(self.chat().users(), username) {
            &&& answer == Reply::Error { cause: username_taken_cause(username) }
            &&& after.chat().users() == self.chat().users()
        } else {
            &&& answer == Reply::LoginSuccessful
            &&& after.chat().users() == self.chat().users().insert(addr, username)
        }
    }

    /// What a command from the connection at `addr` does to the server, and
    /// the replies to it, in the order in which they are sent.
    pub open spec fn executed(
        &self,
        after: Server,
        addr: PeerAddr,
        command: Command,
        answer: Seq<Reply>,
    ) -> bool {
        &&& self.same_settings(after)
        &&& match command {
            Command::Ping => {
                &&& answer == seq![Reply::Pong]
                &&& after.chat().rooms() == self.chat().rooms()
                &&& after.chat().users() == self.chat().users()
            },
            Command::CreateRoom { name } => self.chat().room_added(after.chat(), name, answer),
            Command::DeleteRoom { name } => {
                &&& answer.len() == 1
                &&& self.chat().room_removed(after.chat(), name, answer[0])
            },
            Command::ListRooms { page, page_size } => {
                &&& answer == seq![
                    Reply::RoomList(listing_of(self.chat().room_names(), page, page_size)),
                ]
                &&& after.chat().rooms() == self.chat().rooms()
                &&& after.chat().users() == self.chat().users()
            },
            Command::ListAllRooms { page_size } => {
                &&& answer == all_listings(self.chat().room_names(), page_size)
                &&& after.chat().rooms() == self.chat().rooms()
                &&& after.chat().users() == self.chat().users()
            },
            Command::Login { username, password } => {
                &&& answer.len() == 1
                &&& self.logged_in(after, addr, username, password, answer[0])
            },
        }
    }

    /// The command reads the registry and changes nothing, so that it can
    /// be answered while other connections read too.
    pub open spec fn is_query(command: Command) -> bool {
        command is Ping || command is ListRooms || command is ListAllRooms
    }

    /// A server with an empty registry. The password has to be settled.
    pub fn from(args: Args) -> (server: Self)
        requires
            args.password is Some,
        ensures
            server.wf(),
            server.password() == args.password->0@,
            server.listens_at() == (args.ip_address@, args.port),
            server.chat().rooms() == Seq::<crate::protocol::Room>::empty(),
            server.chat().users() == Map::<PeerAddr, Seq<char>>::empty(),
    {
        Server {
            ip_address: args.ip_address,
            port: args.port,
            password: args.password.unwrap(),
            chat: Chat::new(),
        }
    }

    /// Carries out one command of the connection at `peer_addr` and gives
    /// the replies to send.
    pub fn execute_command(&mut self, peer_addr: PeerAddr, message: ClientMessage) -> (answer:
        Vec<ServerMessage>)
        requires
            old(self).wf(),
        ensures
            final(self).wf(),
            old(self).executed(*final(self), peer_addr, message@, replies(answer@)),
            replies_in_step(answer@),
    {
        match message {
            ClientMessage::Ping => {
                let answer = vec![ServerMessage::Pong];
                assert(replies(answer@) =~= seq![Reply::Pong]);
                answer
            },
            ClientMessage::CreateRoom { name } => self.chat.add_room(name),
            ClientMessage::DeleteRoom { name } => {
                let answer = vec![self.chat.remove_room(name)];
                assert(replies(answer@)[0] == answer@[0]@);
                answer
            },
            ClientMessage::ListRooms { page, page_size } => {
                let answer = vec![self.chat.list_rooms(page, Some(page_size))];
                assert(replies(answer@) =~= seq![
                    Reply::RoomList(
                        listing_of(self.chat().room_names(), page as nat, page_size as nat),
                    ),
                ]);
                answer
            },
            ClientMessage::ListAllRooms { page_size } => self.chat.list_all_rooms(Some(page_size)),
            ClientMessage::Login { username, password } => {
                let answer = vec![self.login_user(peer_addr, username, password)];
                assert(replies(answer@)[0] == answer@[0]@);
                answer
            },
        }
    }

    /// Answers a command that only reads, without exclusive access to the
    /// server. Any other command is handed back untouched: it has to go
    /// through `execute_command`.
    pub fn execute_query(&self, peer_addr: PeerAddr, message: ClientMessage) -> (outcome: Result<
        Vec<ServerMessage>,
        ClientMessage,
    >)
        ensures
            match outcome {
                Ok(answer) => Self::is_query(message@) && replies_in_step(answer@)
                    && self.executed(*self, peer_addr, message@, replies(answer@)),
                Err(back) => !Self::is_query(message@) && back == message,
            },
    {
        match message {
            ClientMessage::Ping => {
                let answer = vec![ServerMessage::Pong];
                assert(replies(answer@) =~= seq![Reply::Pong]);
                Ok(answer)
            },
            ClientMessage::ListRooms { page, page_size } => {
                let answer = vec![self.chat.list_rooms(page, Some(page_size))];
                assert(replies(answer@) =~= seq![
                    Reply::RoomList(
                        listing_of(self.chat().room_names(), page as nat, page_size as nat),
                    ),
                ]);
                Ok(answer)
            },
            ClientMessage::ListAllRooms { page_size } => Ok(
                self.chat.list_all_rooms(Some(page_size)),
            ),
            other => Err(other),
        }
    }

    /// Checks the password and binds the username to the connection.
    pub fn login_user(
        &mut self,
        peer_addr: PeerAddr,
        username: String,
        password: String,
    ) -> (answer: ServerMessage)
        requires
            old(self).wf(),
        ensures
            final(self).wf(),
            old(self).logged_in(*final(self), peer_addr, username@, password@, answer@),
    {
        if password != self.password {
            return ServerMessage::error_from("Invalid password provided. Please try again.");
        }
        let outcome = self.chat.set_username(peer_addr, username);
        match outcome {
            ServerMessage::Ack => ServerMessage::LoginSuccessful,
            other => other,
        }
    }

    /// Forgets the connection at `peer_addr`; one that was not logged in
    /// leaves everything as it was.
    pub fn remove_user(&mut self, peer_addr: PeerAddr)
        requires
            old(self).wf(),
        ensures
            final(self).wf(),
            old(self).same_settings(*final(self)),
            final(self).chat().rooms() == old(self).chat().rooms(),
            final(self).chat().users() == old(self).chat().users().remove(peer_addr),
    {
        self.chat.remove_user(peer_addr);
    }
}

/// One accepted connection, known by the address of its peer.
#[derive(Debug, Clone, Copy, PartialEq, Eq)]
pub struct Connection {
    pub peer_addr: PeerAddr,
}

impl Connection {
    /// The connection of the peer at `peer_addr`.
    pub fn from(peer_addr: PeerAddr) -> (connection: Self)
        ensures
            connection.peer_addr == peer_addr,
    {
        Connection { peer_addr }
    }

    /// Answers one payload: `decoded` is the message that it held, or
    /// nothing where it held none. A payload that is no message is answered
    /// with one error and changes nothing; a message is carried out.
    pub fn handle_message(&self, server: &mut Server, decoded: Option<ClientMessage>) -> (answer:
        Vec<ServerMessage>)
        requires
            old(server).wf(),
        ensures
            final(server).wf(),
            replies_in_step(answer@),
            match decoded {
                Some(message) => old(server).executed(
                    *final(server),
                    self.peer_addr,
                    message@,
                    replies(answer@),
                ),
                None => {
                    &&& replies(answer@) == seq![Reply::Error { cause: unparsed_cause() }]
                    &&& old(server).same_settings(*final(server))
                    &&& final(server).chat().rooms() == old(server).chat().rooms()
                    &&& final(server).chat().users() == old(server).chat().users()
                },
            },
    {
        match decoded {
            Some(message) => server.execute_command(self.peer_addr, message),
            None => {
                let answer = vec![ServerMessage::error_from("Could not parse that message")];
                assert(replies(answer@) =~= seq![Reply::Error { cause: unparsed_cause() }]);
                answer
            },
        }
    }

    /// Ends the connection: its peer is logged out.
    pub fn close(self, server: &mut Server)
        requires
            old(server).wf(),
        ensures
            final(server).wf(),
            old(server).same_settings(*final(server)),
            final(server).chat().rooms() == old(server).chat().rooms(),
            final(server).chat().users() == old(server).chat().users().remove(self.peer_addr),
    {
        server.remove_user(self.peer_addr);
    }
}

} // verus!
