//! The vocabulary exchanged between client and server, and the data that
//! travels in it.

use crate::paging::{get_page_buffer, lemma_page_len, page_of};
use vstd::prelude::*;
use vstd::slice::slice_subrange;
use vstd::utf8::{decode_utf8, encode_utf8, encode_utf8_decode_utf8, valid_utf8};

verus! {

/// Size of the buffer that one read from the transport fills; one read is
/// taken to hold one message.
pub const TCP_BUFFER_SIZE: usize = 2048;

/// What one read from the transport gave.
#[derive(Debug, Clone, Copy, PartialEq, Eq)]
pub enum ReadOutcome {
    /// That many bytes were read.
    Bytes(usize),
    /// Nothing came in the time allowed.
    TimedOut,
    /// The transport failed.
    Failed,
}

/// What a receiver does after a read.
#[derive(Debug, Clone, Copy, PartialEq, Eq)]
pub enum ReadStep {
    /// Take the first bytes of the buffer, that many, as one message.
    Decode(usize),
    /// Read again.
    Retry,
    /// The connection is over.
    Close,
}

/// The step that follows a read: bytes are one message; a read of no bytes
/// is the orderly end of the connection; a read that timed out is tried
/// again; any other failure ends the connection.
pub open spec fn step_after(outcome: ReadOutcome) -> ReadStep {
    match outcome {
        ReadOutcome::Bytes(size) => if size == 0 {
            ReadStep::Close
        } else {
            ReadStep::Decode(size)
        },
        ReadOutcome::TimedOut => ReadStep::Retry,
        ReadOutcome::Failed => ReadStep::Close,
    }
}

/// Decides what follows a read.
pub fn after_read(outcome: ReadOutcome) -> (step: ReadStep)
    ensures
        step == step_after(outcome),
{
    match outcome {
        ReadOutcome::Bytes(size) => {
            if size == 0 {
                ReadStep::Close
            } else {
                ReadStep::Decode(size)
            }
        },
        ReadOutcome::TimedOut => ReadStep::Retry,
        ReadOutcome::Failed => ReadStep::Close,
    }
}

/// The error of `core::str::from_utf8`, carried through and never looked into.
#[verifier::external_type_specification]
#[verifier::external_body]
pub struct ExUtf8Error(core::str::Utf8Error);

/// `core::str::from_utf8` succeeds on exactly the byte strings that are
/// valid UTF-8, and the text that it gives is the one that those bytes
/// encode.
pub assume_specification[ core::str::from_utf8 ](v: &[u8]) -> (text: Result<
    &str,
    core::str::Utf8Error,
>)
    ensures
        text is Ok <==> valid_utf8(v@),
        text is Ok ==> encode_utf8(text->Ok_0@) == v@,
;

/// The text that a read of `size` bytes into `buffer` brought, where those
/// bytes are text at all.
pub fn payload_text(buffer: &[u8], size: usize) -> (text: Option<String>)
    requires
        size <= buffer@.len(),
    ensures
        text is Some <==> valid_utf8(buffer@.subrange(0, size as int)),
        text is Some ==> text->0@ == decode_utf8(buffer@.subrange(0, size as int)),
{
    match core::str::from_utf8(slice_subrange(buffer, 0, size)) {
        Ok(text) => {
            proof {
                encode_utf8_decode_utf8(text@);
            }
            Some(text.to_owned())
        },
        Err(_) => None,
    }
}

/// The views of a list of strings, in order.
pub open spec fn texts(list: Seq<String>) -> Seq<Seq<char>> {
    Seq::new(list.len(), |i: int| list[i]@)
}

/// The views of a list of borrowed strings, in order.
pub open spec fn borrowed_texts(list: Seq<&String>) -> Seq<Seq<char>> {
    Seq::new(list.len(), |i: int| list[i]@)
}

/// What a client asks of the server.
#[derive(Debug, Clone, PartialEq, Eq)]
pub enum ClientMessage {
    Ping,
    CreateRoom { name: String },
    DeleteRoom { name: String },
    ListRooms { page: usize, page_size: usize },
    ListAllRooms { page_size: usize },
    Login { username: String, password: String },
}

/// A client message as plain mathematical data.
pub enum Command {
    Ping,
    CreateRoom { name: Seq<char> },
    DeleteRoom { name: Seq<char> },
    ListRooms { page: nat, page_size: nat },
    ListAllRooms { page_size: nat },
    Login { username: Seq<char>, password: Seq<char> },
}

impl View for ClientMessage {
    type V = Command;

    open spec fn view(&self) -> Command {
        match *self {
            ClientMessage::Ping => Command::Ping,
            ClientMessage::CreateRoom { name } => Command::CreateRoom { name: name@ },
            ClientMessage::DeleteRoom { name } => Command::DeleteRoom { name: name@ },
            ClientMessage::ListRooms { page, page_size } => Command::ListRooms {
                page: page as nat,
                page_size: page_size as nat,
            },
            ClientMessage::ListAllRooms { page_size } => Command::ListAllRooms {
                page_size: page_size as nat,
            },
            ClientMessage::Login { username, password } => Command::Login {
                username: username@,
                password: password@,
            },
        }
    }
}

/// One page of the listing of room names, with the number of rooms that
/// existed when it was taken.
#[derive(Debug, Clone, PartialEq, Eq)]
pub struct RoomListPage {
    pub room_names: Vec<String>,
    pub page: usize,
    pub total_room_count: usize,
}

/// A page of the listing as plain mathematical data.
pub struct Listing {
    pub room_names: Seq<Seq<char>>,
    pub page: nat,
    pub total_room_count: nat,
}

impl View for RoomListPage {
    type V = Listing;

    open spec fn view(&self) -> Listing {
        Listing {
            room_names: texts(self.room_names@),
            page: self.page as nat,
            total_room_count: self.total_room_count as nat,
        }
    }
}

/// Page `page` of `names`, listed beside the length of `names`.
pub open spec fn listing_of(names: Seq<Seq<char>>, page: nat, page_size: nat) -> Listing {
    Listing {
        room_names: page_of(names, page, page_size),
        page,
        total_room_count: names.len(),
    }
}

/// A page never holds more names than the page size, and a page that
/// starts within the list starts at or before its end.
pub proof fn lemma_listing_bounds(names: Seq<Seq<char>>, page: nat, page_size: nat)
    ensures
        listing_of(names, page, page_size).room_names.len() <= page_size,
        listing_of(names, page, page_size).room_names.len() <= names.len(),
        listing_of(names, page, page_size).room_names.len() > 0 ==> page * page_size
            < listing_of(names, page, page_size).total_room_count,
{
    lemma_page_len(names, page, page_size);
    assert(page * page_size >= 0) by (nonlinear_arith);
}

impl RoomListPage {
    /// Cuts page `page` out of the full list of room names.
    pub fn from(all_room_names: &Vec<&String>, page: usize, page_size: usize) -> (listing: Self)
        ensures
            listing@ == listing_of(
                borrowed_texts(all_room_names@),
                page as nat,
                page_size as nat,
            ),
    {
        let room_names: Vec<String> = get_page_buffer(all_room_names, page, page_size);
        proof {
            let names = borrowed_texts(all_room_names@);
            assert(page * page_size >= 0) by (nonlinear_arith);
            assert(texts(room_names@) =~= page_of(names, page as nat, page_size as nat));
        }
        RoomListPage { room_names, page, total_room_count: all_room_names.len() }
    }
}

impl Default for RoomListPage {
    fn default() -> (listing: Self)
        ensures
            listing@ == (Listing { room_names: Seq::empty(), page: 0, total_room_count: 0 }),
    {
        let listing = RoomListPage { room_names: Vec::new(), page: 0, total_room_count: 0 };
        assert(texts(listing.room_names@) =~= Seq::empty());
        listing
    }
}

/// What the server answers.
#[derive(Debug, Clone, PartialEq, Eq)]
pub enum ServerMessage {
    Ack,
    Pong,
    LoginSuccessful,
    RoomList(RoomListPage),
    Error { cause: String },
}

/// A server message as plain mathematical data.
pub enum Reply {
    Ack,
    Pong,
    LoginSuccessful,
    RoomList(Listing),
    Error { cause: Seq<char> },
}

impl View for ServerMessage {
    type V = Reply;

    open spec fn view(&self) -> Reply {
        match *self {
            ServerMessage::Ack => Reply::Ack,
            ServerMessage::Pong => Reply::Pong,
            ServerMessage::LoginSuccessful => Reply::LoginSuccessful,
            ServerMessage::RoomList(listing) => Reply::RoomList(listing@),
            ServerMessage::Error { cause } => Reply::Error { cause: cause@ },
        }
    }
}

impl ServerMessage {
    /// An error reply that carries `cause`.
    pub fn error_from(cause: &str) -> (reply: Self)
        ensures
            reply@ == (Reply::Error { cause: cause@ }),
    {
        ServerMessage::Error { cause: String::from_str(cause) }
    }
}

/// The views of a list of server messages, in order.
pub open spec fn replies(list: Seq<ServerMessage>) -> Seq<Reply> {
    Seq::new(list.len(), |i: int| list[i]@)
}

/// `replies(list)` has the view of each message of `list` at the index of
/// that message.
pub open spec fn replies_in_step(list: Seq<ServerMessage>) -> bool {
    &&& replies(list).len() == list.len()
    &&& forall|i: int| 0 <= i < list.len() ==> replies(list)[i] == (#[trigger] list[i])@
}

/// One line of chat: who said what.
#[derive(Debug, Clone, PartialEq, Eq)]
pub struct Message {
    pub username: String,
    pub contents: String,
}

/// The address of a connected peer, as plain numbers: the address itself,
/// the port and, for the longer form, the flow information and the scope.
/// Two peers are the same when all of these agree.
#[derive(Debug, Clone, Copy, PartialEq, Eq, Structural, Hash)]
pub enum PeerAddr {
    V4 { octets: u32, port: u16 },
    V6 { segments: u128, port: u16, flowinfo: u32, scope_id: u32 },
}

/// A named container of chat lines and of the users present in it. The
/// lines are kept with their time stamps, oldest first, lines of one instant
/// in the order in which they came.
#[derive(Debug, Clone, PartialEq, Eq)]
pub struct Room {
    pub name: String,
    pub messages: Vec<(i64, Message)>,
    pub active_users: Vec<(String, PeerAddr)>,
}

impl Room {
    /// The room is called `name` and holds neither lines nor users.
    pub open spec fn is_vacant(&self, name: Seq<char>) -> bool {
        &&& self.name@ == name
        &&& self.messages@.len() == 0
        &&& self.active_users@.len() == 0
    }

    /// A new room without lines or users.
    pub fn from(name: String) -> (room: Self)
        ensures
            room.is_vacant(name@),
    {
        Room { name, messages: Vec::new(), active_users: Vec::new() }
    }
}

} // verus!
