//! The registry of rooms and of logged-in users that all connections share.

use crate::names::{
    lemma_precedes_asymmetric, lemma_precedes_transitive, placement, precedes, strictly_ordered,
    Placement,
};
use crate::numerals::{decimal, decimal_text};
use crate::paging::{concat_pages, lemma_pages_cover, page_count};
use crate::protocol::{
    borrowed_texts, listing_of, replies, replies_in_step, PeerAddr, Reply, Room, RoomListPage,
    ServerMessage,
};
use vstd::prelude::*;
use vstd::string::StringExecFns;

verus! {

/// Page size of a listing whose request names none.
pub const DEFAULT_PAGE_SIZE: usize = 40;

/// The registry refuses a new room once it holds this many.
pub const MAX_NUM_ROOMS: usize = 200;

/// Cause reported when a room of that name exists already.
pub open spec fn room_exists_cause(name: Seq<char>) -> Seq<char> {
    "Room with name "@ + name + " already exists"@
}

/// Cause reported when the registry is full.
pub open spec fn room_limit_cause() -> Seq<char> {
    decimal(MAX_NUM_ROOMS as nat)
        + " rooms already exist. Please delete one or more before creating a room."@
}

/// Cause reported when no room of that name exists.
pub open spec fn room_missing_cause(name: Seq<char>) -> Seq<char> {
    "Room with name "@ + name + " doesn't exist"@
}

/// Cause reported when another connection holds the username.
pub open spec fn username_taken_cause(username: Seq<char>) -> Seq<char> {
    "A user with name \""@ + username + "\" already exists!"@
}

/// Cause reported when the rooms cannot be reached.
pub open spec fn rooms_lock_cause() -> Seq<char> {
    "Failed to get rooms lock"@
}

/// Cause reported when the users cannot be reached.
pub open spec fn users_lock_cause() -> Seq<char> {
    "Failed to get users lock"@
}

/// The two halves of the registry, each behind a lock of its own where the
/// registry is shared.
#[derive(Debug, Clone, Copy, PartialEq, Eq)]
pub enum Guarded {
    Rooms,
    Users,
}

/// The answer to a request that could not be served because the lock on
/// one half of the registry was broken.
pub fn lock_failure(half: Guarded) -> (answer: ServerMessage)
    ensures
        answer@ == (Reply::Error {
            cause: match half {
                Guarded::Rooms => rooms_lock_cause(),
                Guarded::Users => users_lock_cause(),
            },
        }),
{
    match half {
        Guarded::Rooms => ServerMessage::error_from("Failed to get rooms lock"),
        Guarded::Users => ServerMessage::error_from("Failed to get users lock"),
    }
}

/// The names of `rooms`, in their order.
pub open spec fn names_of(rooms: Seq<Room>) -> Seq<Seq<char>> {
    Seq::new(rooms.len(), |i: int| rooms[i].name@)
}

/// `k` is where `name` belongs among the ordered `names`: all names before
/// `k` precede it, and it precedes all names from `k` on.
pub open spec fn is_slot(names: Seq<Seq<char>>, name: Seq<char>, k: int) -> bool {
    &&& 0 <= k <= names.len()
    &&& forall|j: int| 0 <= j < k ==> precedes(#[trigger] names[j], name)
    &&& forall|j: int| k <= j < names.len() ==> precedes(name, #[trigger] names[j])
}

/// The place of a name that `names` does not hold.
pub open spec fn slot_of(names: Seq<Seq<char>>, name: Seq<char>) -> int {
    choose|k: int| is_slot(names, name, k)
}

/// Every page of `names` as a reply of its own, in page order.
pub open spec fn all_listings(names: Seq<Seq<char>>, page_size: nat) -> Seq<Reply> {
    Seq::new(
        page_count(names.len(), page_size),
        |p: int| Reply::RoomList(listing_of(names, p as nat, page_size)),
    )
}

/// The names on the first `count` replies of a listing, one page after the
/// other.
pub open spec fn listed_names(answer: Seq<Reply>, count: nat) -> Seq<Seq<char>>
    decreases count,
{
    if count == 0 {
        Seq::empty()
    } else {
        listed_names(answer, (count - 1) as nat) + match answer[count - 1] {
            Reply::RoomList(listing) => listing.room_names,
            _ => Seq::empty(),
        }
    }
}

/// The first pages of a whole listing hold what the first pages of the
/// names hold.
proof fn lemma_listed_prefix(names: Seq<Seq<char>>, page_size: nat, count: nat)
    requires
        count <= page_count(names.len(), page_size),
    ensures
        listed_names(all_listings(names, page_size), count) == concat_pages(
            names,
            page_size,
            count,
        ),
    decreases count,
{
    if count > 0 {
        lemma_listed_prefix(names, page_size, (count - 1) as nat);
    }
}

/// The pages of a whole listing, read one after the other, give every room
/// name once, in order: a listing in pages leaves nothing out and repeats
/// nothing.
pub proof fn lemma_listing_complete(names: Seq<Seq<char>>, page_size: nat)
    requires
        page_size > 0,
    ensures
        all_listings(names, page_size).len() == page_count(names.len(), page_size),
        listed_names(
            all_listings(names, page_size),
            page_count(names.len(), page_size),
        ) == names,
{
    lemma_listed_prefix(names, page_size, page_count(names.len(), page_size));
    lemma_pages_cover(names, page_size);
}

/// The page size that a request means: the one it names, else
/// `DEFAULT_PAGE_SIZE`.
pub open spec fn size_or_default(page_size: Option<usize>) -> nat {
    match page_size {
        Some(size) => size as nat,
        None => DEFAULT_PAGE_SIZE as nat,
    }
}

/// Some connection holds `username`.
pub open spec fn holds_username(users: Map<PeerAddr, Seq<char>>, username: Seq<char>) -> bool {
    exists|addr: PeerAddr| #[trigger] users.dom().contains(addr) && users[addr] == username
}

/// No two connections hold the same username.
pub open spec fn usernames_unique(users: Map<PeerAddr, Seq<char>>) -> bool {
    forall|a: PeerAddr, b: PeerAddr|
        #![trigger users[a], users[b]]
        users.dom().contains(a) && users.dom().contains(b) && users[a] == users[b] ==> a == b
}

/// A name has at most one place, and a name that has one is not among the
/// names.
pub proof fn lemma_slot_unique(names: Seq<Seq<char>>, name: Seq<char>, k: int)
    requires
        is_slot(names, name, k),
    ensures
        slot_of(names, name) == k,
        !names.contains(name),
{
    let other = slot_of(names, name);
    if other < k {
        lemma_precedes_asymmetric(names[other], name);
    } else if k < other {
        lemma_precedes_asymmetric(names[k], name);
    }
    assert forall|j: int| 0 <= j < names.len() implies names[j] != name by {
        if j < k {
            lemma_precedes_asymmetric(names[j], name);
        } else {
            lemma_precedes_asymmetric(name, names[j]);
        }
    }
}

/// In an ordered list every name stands at one index only.
pub proof fn lemma_index_unique(names: Seq<Seq<char>>, k: int)
    requires
        strictly_ordered(names),
        0 <= k < names.len(),
    ensures
        names.index_of(names[k]) == k,
{
    let other = names.index_of(names[k]);
    if other < k {
        lemma_precedes_asymmetric(names[other], names[k]);
    } else if k < other {
        lemma_precedes_asymmetric(names[k], names[other]);
    }
}

/// A connection and the username bound to it.
struct UserEntry {
    addr: PeerAddr,
    username: String,
}

/// The bindings that `entries` hold, as a map from address to username.
spec fn bindings(entries: Seq<UserEntry>) -> Map<PeerAddr, Seq<char>> {
    Map::new(
        |addr: PeerAddr| exists|i: int| 0 <= i < entries.len() && entries[i].addr == addr,
        |addr: PeerAddr|
            entries[choose|i: int| 0 <= i < entries.len() && entries[i].addr == addr].username@,
    )
}

/// No address and no username occurs in two entries.
spec fn entries_distinct(entries: Seq<UserEntry>) -> bool {
    forall|i: int, j: int|
        0 <= i < j < entries.len() ==> entries[i].addr != entries[j].addr
            && entries[i].username@ != entries[j].username@
}

proof fn lemma_binding(entries: Seq<UserEntry>, i: int)
    requires
        entries_distinct(entries),
        0 <= i < entries.len(),
    ensures
        bindings(entries).dom().contains(entries[i].addr),
        bindings(entries)[entries[i].addr] == entries[i].username@,
{
    let addr = entries[i].addr;
    let chosen = choose|k: int| 0 <= k < entries.len() && entries[k].addr == addr;
    assert(chosen == i);
}

proof fn lemma_bindings_unique(entries: Seq<UserEntry>)
    requires
        entries_distinct(entries),
    ensures
        usernames_unique(bindings(entries)),
{
    let users = bindings(entries);
    assert forall|a: PeerAddr, b: PeerAddr|
        users.dom().contains(a) && users.dom().contains(b) && users[a] == users[b] implies a
        == b by {
        let i = choose|i: int| 0 <= i < entries.len() && entries[i].addr == a;
        let j = choose|j: int| 0 <= j < entries.len() && entries[j].addr == b;
        lemma_binding(entries, i);
        lemma_binding(entries, j);
    }
}

proof fn lemma_bindings_push(entries: Seq<UserEntry>, entry: UserEntry)
    requires
        entries_distinct(entries),
        forall|i: int|
            0 <= i < entries.len() ==> (#[trigger] entries[i]).addr != entry.addr
                && entries[i].username@ != entry.username@,
    ensures
        entries_distinct(entries.push(entry)),
        bindings(entries.push(entry)) == bindings(entries).insert(entry.addr, entry.username@),
{
    let grown = entries.push(entry);
    assert(entries_distinct(grown));
    let target = bindings(entries).insert(entry.addr, entry.username@);
    assert forall|addr: PeerAddr| bindings(grown).dom().contains(addr) implies #[trigger]
        target.dom().contains(addr) && bindings(grown)[addr] == target[addr] by {
        let i = choose|i: int| 0 <= i < grown.len() && grown[i].addr == addr;
        lemma_binding(grown, i);
        if i < entries.len() {
            assert(entries[i].addr == addr);
            lemma_binding(entries, i);
        }
    }
    assert forall|addr: PeerAddr| #[trigger] target.dom().contains(addr) implies bindings(
        grown,
    ).dom().contains(addr) by {
        if addr == entry.addr {
            assert(grown[entries.len() as int].addr == addr);
        } else {
            let i = choose|i: int| 0 <= i < entries.len() && entries[i].addr == addr;
            assert(grown[i].addr == addr);
        }
    }
    assert(bindings(grown) =~= target);
}

proof fn lemma_bindings_remove(entries: Seq<UserEntry>, k: int)
    requires
        entries_distinct(entries),
        0 <= k < entries.len(),
    ensures
        entries_distinct(entries.remove(k)),
        bindings(entries.remove(k)) == bindings(entries).remove(entries[k].addr),
{
    let rest = entries.remove(k);
    assert forall|i: int, j: int| 0 <= i < j < rest.len() implies rest[i].addr != rest[j].addr
        && rest[i].username@ != rest[j].username@ by {
        let from_i = if i < k { i } else { i + 1 };
        let from_j = if j < k { j } else { j + 1 };
        assert(rest[i] == entries[from_i] && rest[j] == entries[from_j]);
    }
    let target = bindings(entries).remove(entries[k].addr);
    assert forall|addr: PeerAddr| bindings(rest).dom().contains(addr) implies #[trigger]
        target.dom().contains(addr) && bindings(rest)[addr] == target[addr] by {
        let i = choose|i: int| 0 <= i < rest.len() && rest[i].addr == addr;
        let from_i = if i < k { i } else { i + 1 };
        assert(rest[i] == entries[from_i]);
        lemma_binding(rest, i);
        lemma_binding(entries, from_i);
    }
    assert forall|addr: PeerAddr| #[trigger] target.dom().contains(addr) implies bindings(
        rest,
    ).dom().contains(addr) by {
        let i = choose|i: int| 0 <= i < entries.len() && entries[i].addr == addr;
        let to_i = if i < k { i } else { i - 1 };
        assert(rest[to_i] == entries[i]);
    }
    assert(bindings(rest) =~= target);
}

/// The rooms, kept in the order of their names, and the users.
pub struct Chat {
    rooms: Vec<Room>,
    users: Vec<UserEntry>,
}

impl Chat {
    /// The rooms, in the order of their names.
    pub closed spec fn rooms(&self) -> Seq<Room> {
        self.rooms@
    }

    /// The names of the rooms, in listing order.
    pub open spec fn room_names(&self) -> Seq<Seq<char>> {
        names_of(self.rooms())
    }

    /// The username bound to each logged-in connection.
    pub closed spec fn users(&self) -> Map<PeerAddr, Seq<char>> {
        bindings(self.users@)
    }

    /// The registry is sound: the room names are strictly ordered, so none
    /// occurs twice; there are at most `MAX_NUM_ROOMS` rooms; and no two
    /// connections hold the same username.
    pub closed spec fn wf(&self) -> bool {
        &&& strictly_ordered(self.room_names())
        &&& self.rooms@.len() <= MAX_NUM_ROOMS
        &&& entries_distinct(self.users@)
    }

    /// What soundness means for the rooms and users that the registry shows.
    pub proof fn lemma_sound(&self)
        requires
            self.wf(),
        ensures
            strictly_ordered(self.room_names()),
            self.room_names().no_duplicates(),
            self.rooms().len() <= MAX_NUM_ROOMS,
            usernames_unique(self.users()),
    {
        lemma_bindings_unique(self.users@);
        let names = self.room_names();
        assert forall|i: int, j: int|
            0 <= i < names.len() && 0 <= j < names.len() && i != j implies names[i]
            != names[j] by {
            if i < j {
                lemma_precedes_asymmetric(names[i], names[j]);
            } else {
                lemma_precedes_asymmetric(names[j], names[i]);
            }
        }
    }

    /// Of two claims to one username, made one after the other, the second
    /// is refused and changes nothing, whoever makes it; the first is
    /// granted where nobody held the name before.
    pub proof fn lemma_second_claim_refused(
        &self,
        between: Chat,
        last: Chat,
        first_addr: PeerAddr,
        second_addr: PeerAddr,
        username: Seq<char>,
        first_answer: Reply,
        second_answer: Reply,
    )
        requires
            self.username_set(between, first_addr, username, first_answer),
            between.username_set(last, second_addr, username, second_answer),
        ensures
            !holds_username(self.users(), username) ==> first_answer == Reply::Ack,
            second_answer == (Reply::Error { cause: username_taken_cause(username) }),
            last.users() == between.users(),
    {
        if holds_username(self.users(), username) {
            assert(between.users() == self.users());
        } else {
            assert(between.users().dom().contains(first_addr));
            assert(between.users()[first_addr] == username);
        }
    }

    /// Once the connection that held a username is forgotten, another
    /// connection that claims the name gets it.
    pub proof fn lemma_name_free_after_leaving(
        &self,
        left: Chat,
        last: Chat,
        holder: PeerAddr,
        claimant: PeerAddr,
        username: Seq<char>,
        answer: Reply,
    )
        requires
            self.wf(),
            self.users().dom().contains(holder),
            self.users()[holder] == username,
            left.users() == self.users().remove(holder),
            left.username_set(last, claimant, username, answer),
        ensures
            answer == Reply::Ack,
            last.users().dom().contains(claimant),
            last.users()[claimant] == username,
    {
        self.lemma_sound();
        if holds_username(left.users(), username) {
            let other = choose|addr: PeerAddr| #[trigger]
                left.users().dom().contains(addr) && left.users()[addr] == username;
            assert(self.users().dom().contains(other));
            assert(self.users()[other] == self.users()[holder]);
        }
    }

    /// An empty registry.
    pub fn new() -> (chat: Self)
        ensures
            chat.wf(),
            chat.rooms() == Seq::<Room>::empty(),
            chat.room_names() == Seq::<Seq<char>>::empty(),
            chat.users() == Map::<PeerAddr, Seq<char>>::empty(),
    {
        let chat = Chat { rooms: Vec::new(), users: Vec::new() };
        assert(chat.users() =~= Map::<PeerAddr, Seq<char>>::empty());
        assert(chat.room_names() =~= Seq::<Seq<char>>::empty());
        chat
    }

    /// Looks `name` up among the rooms: its index where it is found, else
    /// the index at which it belongs.
    fn find_room(&self, name: &str) -> (place: (usize, bool))
        requires
            self.wf(),
        ensures
            place.1 ==> place.0 < self.rooms().len() && self.room_names()[place.0 as int] == name@,
            !place.1 ==> is_slot(self.room_names(), name@, place.0 as int),
            place.1 == self.room_names().contains(name@),
    {
        let ghost names = self.room_names();
        let mut index: usize = 0;
        while index < self.rooms.len()
            invariant
                index <= self.rooms@.len(),
                names == self.room_names(),
                strictly_ordered(names),
                forall|j: int| 0 <= j < index ==> precedes(#[trigger] names[j], name@),
            decreases self.rooms@.len() - index,
        {
            match placement(self.rooms[index].name.as_str(), name) {
                Placement::Before => {
                    index = index + 1;
                },
                Placement::Same => {
                    assert(names[index as int] == name@);
                    return (index, true);
                },
                Placement::After => {
                    proof {
                        assert forall|j: int| index <= j < names.len() implies precedes(
                            name@,
                            #[trigger] names[j],
                        ) by {
                            if index < j {
                                lemma_precedes_transitive(name@, names[index as int], names[j]);
                            }
                        }
                        lemma_slot_unique(names, name@, index as int);
                    }
                    return (index, false);
                },
            }
        }
        proof {
            lemma_slot_unique(names, name@, index as int);
        }
        (index, false)
    }

    /// The room names as borrowed keys, in listing order.
    fn keys(&self) -> (keys: Vec<&String>)
        ensures
            borrowed_texts(keys@) == self.room_names(),
    {
        let mut keys: Vec<&String> = Vec::new();
        let mut index: usize = 0;
        while index < self.rooms.len()
            invariant
                index <= self.rooms@.len(),
                keys@.len() == index,
                forall|i: int| 0 <= i < index ==> (#[trigger] keys@[i])@ == self.rooms@[i].name@,
            decreases self.rooms@.len() - index,
        {
            keys.push(&self.rooms[index].name);
            index = index + 1;
        }
        assert(borrowed_texts(keys@) =~= self.room_names());
        keys
    }

    /// What creating a room called `name` does to the registry `self`, and
    /// what is answered. A name that is taken is answered with one error
    /// and changes nothing, and so is a full registry; the name is looked at
    /// first. Otherwise an empty room takes its place in the order of
    /// names, and the answer is the whole listing as it then stands, in
    /// pages of `DEFAULT_PAGE_SIZE`.
    pub open spec fn room_added(&self, after: Chat, name: Seq<char>, answer: Seq<Reply>) -> bool {
        &&& after.users() == self.users()
        &&& if self.room_names().contains(name) {
            &&& after.rooms() == self.rooms()
            &&& answer == seq![Reply::Error { cause: room_exists_cause(name) }]
        } else if self.rooms().len() >= MAX_NUM_ROOMS {
            &&& after.rooms() == self.rooms()
            &&& answer == seq![Reply::Error { cause: room_limit_cause() }]
        } else {
            let slot = slot_of(self.room_names(), name);
            &&& is_slot(self.room_names(), name, slot)
            &&& forall|k: int| #[trigger] is_slot(self.room_names(), name, k) ==> k == slot
            &&& after.rooms() == self.rooms().insert(slot, after.rooms()[slot])
            &&& after.rooms()[slot].is_vacant(name)
            &&& after.room_names() == self.room_names().insert(slot, name)
            &&& after.room_names().contains(name)
            &&& answer == all_listings(after.room_names(), DEFAULT_PAGE_SIZE as nat)
        }
    }

    /// What deleting the room called `name` does to the registry `self`,
    /// and what is answered: that room leaves and no other; where there is
    /// none, the answer is an error and nothing changes.
    pub open spec fn room_removed(&self, after: Chat, name: Seq<char>, answer: Reply) -> bool {
        &&& after.users() == self.users()
        &&& if self.room_names().contains(name) {
            let at = self.room_names().index_of(name);
            &&& 0 <= at < self.rooms().len()
            &&& forall|k: int|
                0 <= k < self.room_names().len() && #[trigger] self.room_names()[k] == name ==> k
                    == at
            &&& answer == Reply::Ack
            &&& after.rooms() == self.rooms().remove(at)
            &&& after.room_names() == self.room_names().remove(at)
            &&& !after.room_names().contains(name)
        } else {
            &&& answer == Reply::Error { cause: room_missing_cause(name) }
            &&& after.rooms() == self.rooms()
        }
    }

    /// What binding `username` to the connection at `addr` does to the
    /// registry `self`, and what is answered. Where any connection holds
    /// that username already, this one included, the answer is an error and
    /// no binding changes. Otherwise the connection is bound to it, in
    /// place of the username that it had, if any.
    pub open spec fn username_set(
        &self,
        after: Chat,
        addr: PeerAddr,
        username: Seq<char>,
        answer: Reply,
    ) -> bool {
        &&& after.rooms() == self.rooms()
        &&& holds_username(after.users(), username)
        &&& if holds_username(self.users(), username) {
            &&& answer == Reply::Error { cause: username_taken_cause(username) }
            &&& after.users() == self.users()
        } else {
            &&& answer == Reply::Ack
            &&& after.users() == self.users().insert(addr, username)
        }
    }

    /// Creates an empty room called `room_name`, as `room_added` says.
    pub fn add_room(&mut self, room_name: String) -> (answer: Vec<ServerMessage>)
        requires
            old(self).wf(),
        ensures
            final(self).wf(),
            old(self).room_added(*final(self), room_name@, replies(answer@)),
            replies_in_step(answer@),
    {
        let (slot, found) = self.find_room(room_name.as_str());
        if found {
            let cause = String::from_str("Room with name ").concat(room_name.as_str()).concat(
                " already exists",
            );
            let answer = vec![ServerMessage::error_from(cause.as_str())];
            assert(replies(answer@) =~= seq![
                Reply::Error { cause: room_exists_cause(room_name@) },
            ]);
            answer
        } else if self.rooms.len() >= MAX_NUM_ROOMS {
            let cause = decimal_text(MAX_NUM_ROOMS as u128).concat(
                " rooms already exist. Please delete one or more before creating a room.",
            );
            let answer = vec![ServerMessage::error_from(cause.as_str())];
            assert(replies(answer@) =~= seq![Reply::Error { cause: room_limit_cause() }]);
            answer
        } else {
            let ghost before = self.room_names();
            let ghost name = room_name@;
            proof {
                lemma_slot_unique(before, name, slot as int);
                assert forall|k: int| #[trigger] is_slot(before, name, k) implies k == slot by {
                    lemma_slot_unique(before, name, k);
                }
            }
            self.rooms.insert(slot, Room::from(room_name));
            proof {
                let after = self.room_names();
                assert(after =~= before.insert(slot as int, name));
                assert forall|i: int, j: int| 0 <= i < j < after.len() implies precedes(
                    after[i],
                    after[j],
                ) by {
                    if i < slot && j > slot {
                        assert(after[i] == before[i] && after[j] == before[j - 1]);
                    } else if i < slot && j < slot {
                        assert(after[i] == before[i] && after[j] == before[j]);
                    } else if i < slot {
                        assert(after[i] == before[i]);
                    } else if i == slot {
                        assert(after[j] == before[j - 1]);
                    } else {
                        assert(after[i] == before[i - 1] && after[j] == before[j - 1]);
                    }
                }
                assert(self.rooms() =~= old(self).rooms().insert(
                    slot as int,
                    self.rooms()[slot as int],
                ));
                assert(after[slot as int] == name);
            }
            self.list_all_rooms(None)
        }
    }

    /// Deletes the room called `room_name`, as `room_removed` says.
    pub fn remove_room(&mut self, room_name: String) -> (answer: ServerMessage)
        requires
            old(self).wf(),
        ensures
            final(self).wf(),
            old(self).room_removed(*final(self), room_name@, answer@),
    {
        let (at, found) = self.find_room(room_name.as_str());
        if !found {
            let cause = String::from_str("Room with name ").concat(room_name.as_str()).concat(
                " doesn't exist",
            );
            ServerMessage::error_from(cause.as_str())
        } else {
            let ghost before = self.room_names();
            proof {
                lemma_index_unique(before, at as int);
                assert forall|k: int| 0 <= k < before.len() && #[trigger] before[k]
                    == room_name@ implies k == at by {
                    lemma_index_unique(before, k);
                }
            }
            self.rooms.remove(at);
            proof {
                let after = self.room_names();
                assert(after =~= before.remove(at as int));
                assert forall|i: int, j: int| 0 <= i < j < after.len() implies precedes(
                    after[i],
                    after[j],
                ) by {
                    let from_i = if i < at { i } else { i + 1 };
                    let from_j = if j < at { j } else { j + 1 };
                    assert(after[i] == before[from_i] && after[j] == before[from_j]);
                }
                assert forall|i: int| 0 <= i < after.len() implies after[i] != room_name@ by {
                    let from_i = if i < at { i } else { i + 1 };
                    assert(after[i] == before[from_i]);
                    if from_i < at {
                        lemma_precedes_asymmetric(before[from_i], before[at as int]);
                    } else {
                        lemma_precedes_asymmetric(before[at as int], before[from_i]);
                    }
                }
            }
            ServerMessage::Ack
        }
    }

    /// One page of the room names, in the order of the names, with the
    /// number of rooms; pages hold `DEFAULT_PAGE_SIZE` names where the
    /// request names no size.
    pub fn list_rooms(&self, page: usize, page_size: Option<usize>) -> (answer: ServerMessage)
        ensures
            answer@ == Reply::RoomList(
                listing_of(self.room_names(), page as nat, size_or_default(page_size)),
            ),
    {
        let page_size: usize = match page_size {
            Some(size) => size,
            None => DEFAULT_PAGE_SIZE,
        };
        let keys = self.keys();
        ServerMessage::RoomList(RoomListPage::from(&keys, page, page_size))
    }

    /// Every page of the room names, each as a reply of its own, in page
    /// order: `ceil(total / page_size)` of them, none for a page size of
    /// zero.
    pub fn list_all_rooms(&self, page_size: Option<usize>) -> (answer: Vec<ServerMessage>)
        ensures
            replies(answer@) == all_listings(self.room_names(), size_or_default(page_size)),
            replies_in_step(answer@),
            answer@.len() == page_count(self.room_names().len(), size_or_default(page_size)),
    {
        let page_size: usize = match page_size {
            Some(size) => size,
            None => DEFAULT_PAGE_SIZE,
        };
        let keys = self.keys();
        let total: usize = keys.len();
        let mut answer: Vec<ServerMessage> = Vec::new();
        if page_size == 0 {
            assert(replies(answer@) =~= all_listings(self.room_names(), 0));
            return answer;
        }
        let full_pages: usize = total / page_size;
        let mut page: usize = 0;
        while page < full_pages || (page == full_pages && total % page_size != 0)
            invariant
                page_size > 0,
                total == keys@.len(),
                full_pages == total / page_size,
                page <= page_count(total as nat, page_size as nat),
                answer@.len() == page,
                borrowed_texts(keys@) == self.room_names(),
                forall|p: int|
                    0 <= p < page ==> (#[trigger] answer@[p])@ == Reply::RoomList(
                        listing_of(self.room_names(), p as nat, page_size as nat),
                    ),
            decreases page_count(total as nat, page_size as nat) - page,
        {
            assert(total % page_size != 0 ==> total / page_size < total) by (nonlinear_arith)
                requires
                    page_size > 0,
            ;
            answer.push(ServerMessage::RoomList(RoomListPage::from(&keys, page, page_size)));
            page = page + 1;
        }
        assert(page == page_count(total as nat, page_size as nat));
        assert(replies(answer@) =~= all_listings(self.room_names(), page_size as nat));
        answer
    }

    /// Binds `username` to the connection at `peer_addr`, as `username_set`
    /// says.
    pub fn set_username(&mut self, peer_addr: PeerAddr, username: String) -> (answer:
        ServerMessage)
        requires
            old(self).wf(),
        ensures
            final(self).wf(),
            old(self).username_set(*final(self), peer_addr, username@, answer@),
    {
        let ghost before = self.users@;
        let mut index: usize = 0;
        while index < self.users.len()
            invariant
                index <= self.users@.len(),
                *self == *old(self),
                self.wf(),
                self.users@ == before,
                forall|i: int| 0 <= i < index ==> (#[trigger] before[i]).username@ != username@,
            decreases self.users@.len() - index,
        {
            if self.users[index].username == username {
                proof {
                    lemma_binding(before, index as int);
                    assert(self.users().dom().contains(before[index as int].addr));
                }
                let cause = String::from_str("A user with name \"").concat(
                    username.as_str(),
                ).concat("\" already exists!");
                return ServerMessage::error_from(cause.as_str());
            }
            index = index + 1;
        }
        proof {
            if holds_username(self.users(), username@) {
                let addr = choose|addr: PeerAddr| #[trigger]
                    self.users().dom().contains(addr) && self.users()[addr] == username@;
                let i = choose|i: int| 0 <= i < before.len() && before[i].addr == addr;
                lemma_binding(before, i);
            }
        }
        self.remove_user(peer_addr);
        let entry = UserEntry { addr: peer_addr, username };
        proof {
            let rest = self.users@;
            assert forall|i: int| 0 <= i < rest.len() implies (#[trigger] rest[i]).addr
                != entry.addr && rest[i].username@ != entry.username@ by {
                lemma_binding(rest, i);
                let addr = rest[i].addr;
                assert(bindings(before).remove(peer_addr).dom().contains(addr));
                let k = choose|k: int| 0 <= k < before.len() && before[k].addr == addr;
                lemma_binding(before, k);
            }
            lemma_bindings_push(rest, entry);
            assert(bindings(before).remove(peer_addr).insert(peer_addr, entry.username@)
                =~= bindings(before).insert(peer_addr, entry.username@));
        }
        self.users.push(entry);
        assert(self.users().dom().contains(peer_addr));
        ServerMessage::Ack
    }

    /// Forgets the connection at `peer_addr`. Where it was not logged in,
    /// nothing changes.
    pub fn remove_user(&mut self, peer_addr: PeerAddr)
        requires
            old(self).wf(),
        ensures
            final(self).wf(),
            final(self).rooms() == old(self).rooms(),
            final(self).users() == old(self).users().remove(peer_addr),
    {
        let ghost before = self.users@;
        let mut index: usize = 0;
        while index < self.users.len()
            invariant
                index <= self.users@.len(),
                *self == *old(self),
                self.wf(),
                self.users@ == before,
                forall|i: int| 0 <= i < index ==> (#[trigger] before[i]).addr != peer_addr,
            decreases self.users@.len() - index,
        {
            if self.users[index].addr == peer_addr {
                proof {
                    lemma_bindings_remove(before, index as int);
                }
                self.users.remove(index);
                return ;
            }
            index = index + 1;
        }
        assert(bindings(before) =~= bindings(before).remove(peer_addr));
    }
}

} // verus!
