//! What the terminal front end keeps and decides: the tabs of the menu, the
//! list of rooms with its cursor, and what each key does. Drawing and the
//! text field stay outside; this module is told which key came and what
//! the text field holds, and says what to do.

use crate::numerals::{decimal, decimal_text};
use crate::protocol::{texts, ClientMessage, Command, Listing, Room, RoomListPage};
use vstd::prelude::*;
use vstd::std_specs::convert::FromSpecImpl;
use vstd::string::StringExecFns;

verus! {

/// Something that happened at the terminal.
pub enum Event<I> {
    Input(I),
}

/// The error of a queue whose senders are gone, carried through and never
/// looked into.
#[verifier::external_type_specification]
#[verifier::external_body]
pub struct ExRecvError(std::sync::mpsc::RecvError);

/// Why the front end came to an end.
#[derive(Debug)]
pub enum UIError {
    EventError(std::sync::mpsc::RecvError),
    IOError(std::io::Error),
}

impl From<std::sync::mpsc::RecvError> for UIError {
    fn from(err: std::sync::mpsc::RecvError) -> (error: Self) {
        UIError::EventError(err)
    }
}

impl FromSpecImpl<std::sync::mpsc::RecvError> for UIError {
    open spec fn obeys_from_spec() -> bool {
        true
    }

    open spec fn from_spec(err: std::sync::mpsc::RecvError) -> Self {
        UIError::EventError(err)
    }
}

impl From<std::io::Error> for UIError {
    fn from(err: std::io::Error) -> (error: Self) {
        UIError::IOError(err)
    }
}

impl FromSpecImpl<std::io::Error> for UIError {
    open spec fn obeys_from_spec() -> bool {
        true
    }

    open spec fn from_spec(err: std::io::Error) -> Self {
        UIError::IOError(err)
    }
}

/// A tab of the menu.
#[derive(Debug, Clone, PartialEq, Eq)]
pub enum MenuItem {
    RoomList,
    Room { index: usize, name: String },
}

impl MenuItem {
    /// The title of the tab: `Rooms` for the list, and for a room its
    /// number, counted from one, a full stop, a blank and its name.
    pub open spec fn tab_text(&self) -> Seq<char> {
        match *self {
            MenuItem::RoomList => "Rooms"@,
            MenuItem::Room { index, name } => decimal((index + 1) as nat) + ". "@ + name@,
        }
    }

    /// The title of the tab.
    pub fn get_tab_text(&self) -> (text: String)
        ensures
            text@ == self.tab_text(),
    {
        match self {
            MenuItem::RoomList => String::from_str("Rooms"),
            MenuItem::Room { index, name } => {
                let number: u128 = *index as u128 + 1;
                decimal_text(number).concat(". ").concat(name.as_str())
            },
        }
    }
}

/// The tabs and which of them is shown.
#[derive(Debug, Clone, PartialEq, Eq)]
pub struct Menu {
    active_index: usize,
    items: Vec<MenuItem>,
}

impl Menu {
    /// The tabs, from the left.
    pub closed spec fn items(&self) -> Seq<MenuItem> {
        self.items@
    }

    /// Index of the tab that is shown.
    pub closed spec fn active(&self) -> nat {
        self.active_index as nat
    }

    /// Index of the tab that is shown.
    pub fn active_index(&self) -> (index: usize)
        ensures
            index == self.active(),
    {
        self.active_index
    }

    /// The titles of the tabs, from the left.
    pub fn titles(&self) -> (titles: Vec<String>)
        ensures
            titles@.len() == self.items().len(),
            forall|i: int|
                0 <= i < titles@.len() ==> (#[trigger] titles@[i])@ == self.items()[i].tab_text(),
    {
        let mut titles: Vec<String> = Vec::new();
        let mut index: usize = 0;
        while index < self.items.len()
            invariant
                index <= self.items@.len(),
                titles@.len() == index,
                forall|i: int|
                    0 <= i < index ==> (#[trigger] titles@[i])@ == self.items@[i].tab_text(),
            decreases self.items@.len() - index,
        {
            titles.push(self.items[index].get_tab_text());
            index = index + 1;
        }
        titles
    }
}

impl Default for Menu {
    /// The menu at the start: the list of rooms is its only tab, and shown.
    fn default() -> (menu: Self)
        ensures
            menu.active() == 0,
            menu.items() == seq![MenuItem::RoomList],
    {
        Menu { active_index: 0, items: vec![MenuItem::RoomList] }
    }
}

/// A key, as far as the list of rooms tells keys apart.
#[derive(Debug, Clone, Copy, PartialEq, Eq, Structural)]
pub enum Key {
    Enter,
    Up,
    Down,
    Char(char),
    Other,
}

/// What is to be done for a key.
#[derive(Debug, Clone, PartialEq, Eq)]
pub enum KeyAction {
    /// Nothing beyond the change of state.
    Nothing,
    /// Hand the key to the text field.
    EditInput,
    /// Send the message.
    Send(ClientMessage),
    /// Send the message and empty the text field.
    SendAndClearInput(ClientMessage),
}

/// An action as plain mathematical data.
pub enum Deed {
    Nothing,
    EditInput,
    Send(Command),
    SendAndClearInput(Command),
}

impl View for KeyAction {
    type V = Deed;

    open spec fn view(&self) -> Deed {
        match *self {
            KeyAction::Nothing => Deed::Nothing,
            KeyAction::EditInput => Deed::EditInput,
            KeyAction::Send(message) => Deed::Send(message@),
            KeyAction::SendAndClearInput(message) => Deed::SendAndClearInput(message@),
        }
    }
}

/// `text` without the white space at its two ends, as `str::trim` gives it.
pub uninterp spec fn trimmed(text: Seq<char>) -> Seq<char>;

/// Calls `str::trim` of std, which removes leading and trailing white
/// space, and copies what is left. Trusted: the text that comes back is
/// the one named `trimmed`, a function of the given text alone.
#[verifier::external_body]
fn trim_text(text: &str) -> (out: String)
    ensures
        out@ == trimmed(text@),
{
    text.trim().to_string()
}

/// The list of rooms on the screen.
#[derive(Debug, Clone, PartialEq, Eq)]
pub struct RoomListState {
    /// The text field for the name of a new room is open.
    pub is_creating_room: bool,
    pub room_names: Vec<String>,
    pub room_total_count: usize,
    /// The line under the cursor.
    pub selected: Option<usize>,
}

/// Some line holds a character.
pub open spec fn has_text(lines: Seq<Seq<char>>) -> bool {
    exists|i: int| 0 <= i < lines.len() && (#[trigger] lines[i]).len() > 0
}

impl RoomListState {
    /// The line under the cursor, the first where none is marked.
    pub open spec fn cursor(&self) -> nat {
        match self.selected {
            Some(line) => line as nat,
            None => 0,
        }
    }

    /// The cursor one line down: never past the last of `room_total_count`
    /// lines.
    pub open spec fn cursor_below(&self) -> nat {
        let last: nat = if self.room_total_count == 0 {
            0
        } else {
            (self.room_total_count - 1) as nat
        };
        if self.cursor() + 1 < last {
            self.cursor() + 1
        } else {
            last
        }
    }

    /// The cursor one line up: never above the first.
    pub open spec fn cursor_above(&self) -> nat {
        if self.cursor() == 0 {
            0
        } else {
            (self.cursor() - 1) as nat
        }
    }

    /// Whether the list takes the key: while the text field is open, every
    /// key; else `c`, `d`, `j`, `k` and the two arrows.
    pub open spec fn takes(&self, key: Key) -> bool {
        self.is_creating_room || key == Key::Char('c') || key == Key::Char('d') || key
            == Key::Char('j') || key == Key::Char('k') || key == Key::Up || key == Key::Down
    }

    /// The key asks for the room under the cursor, and there is none there
    /// although the list is not empty.
    pub open spec fn cursor_astray(&self, key: Key) -> bool {
        &&& !self.is_creating_room
        &&& key == Key::Char('d')
        &&& self.room_names@.len() > 0
        &&& self.cursor() >= self.room_names@.len()
    }

    /// What a key does to the list `self`, and what is to be done for it;
    /// `lines` is what the text field holds.
    ///
    /// While the text field is open, Enter sends the first line, trimmed,
    /// as the name of a room to create and closes the field, provided some
    /// line holds a character; every other key goes to the field. Else `c`
    /// opens the field, `d` asks to delete the room under the cursor, `j`
    /// and Down move the cursor down, `k` and Up move it up.
    pub open spec fn key_handled(
        &self,
        after: RoomListState,
        key: Key,
        lines: Seq<Seq<char>>,
        action: Deed,
    ) -> bool {
        if self.is_creating_room {
            if key == Key::Enter && has_text(lines) {
                &&& after == (RoomListState { is_creating_room: false, ..*self })
                &&& action == Deed::SendAndClearInput(
                    Command::CreateRoom { name: trimmed(lines[0]) },
                )
            } else if key == Key::Enter {
                after == *self && action == Deed::Nothing
            } else {
                after == *self && action == Deed::EditInput
            }
        } else if key == Key::Char('c') {
            &&& after == (RoomListState { is_creating_room: true, ..*self })
            &&& action == Deed::Nothing
        } else if key == Key::Char('d') {
            &&& after == *self
            &&& if self.room_names@.len() == 0 {
                action == Deed::Nothing
            } else {
                action == Deed::Send(
                    Command::DeleteRoom { name: self.room_names@[self.cursor() as int]@ },
                )
            }
        } else if key == Key::Char('j') || key == Key::Down {
            &&& after == (RoomListState {
                selected: Some(self.cursor_below() as usize),
                ..*self
            })
            &&& action == Deed::Nothing
        } else if key == Key::Char('k') || key == Key::Up {
            &&& after == (RoomListState {
                selected: Some(self.cursor_above() as usize),
                ..*self
            })
            &&& action == Deed::Nothing
        } else {
            after == *self && action == Deed::Nothing
        }
    }

    /// Whether the list takes the key.
    pub fn will_handle_key_event(&self, key: Key) -> (taken: bool)
        ensures
            taken == self.takes(key),
    {
        if self.is_creating_room {
            true
        } else {
            match key {
                Key::Char(c) => c == 'c' || c == 'd' || c == 'j' || c == 'k',
                Key::Up => true,
                Key::Down => true,
                _ => false,
            }
        }
    }

    /// Whether `handle_key_event` may be called with this key.
    pub fn is_cursor_astray(&self, key: Key) -> (astray: bool)
        ensures
            astray == self.cursor_astray(key),
    {
        let cursor: usize = match self.selected {
            Some(line) => line,
            None => 0,
        };
        !self.is_creating_room && key == Key::Char('d') && self.room_names.len() > 0 && cursor
            >= self.room_names.len()
    }

    /// Closes the text field and asks to create the room called `name`.
    pub fn submit_room_name(&mut self, name: String) -> (action: KeyAction)
        ensures
            *final(self) == (RoomListState { is_creating_room: false, ..*old(self) }),
            action@ == Deed::SendAndClearInput(Command::CreateRoom { name: name@ }),
    {
        self.is_creating_room = false;
        KeyAction::SendAndClearInput(ClientMessage::CreateRoom { name })
    }

    /// Whether some line holds a character.
    fn any_text(lines: &Vec<String>) -> (found: bool)
        ensures
            found == has_text(texts(lines@)),
    {
        let mut index: usize = 0;
        while index < lines.len()
            invariant
                index <= lines@.len(),
                forall|i: int| 0 <= i < index ==> (#[trigger] texts(lines@)[i]).len() == 0,
            decreases lines@.len() - index,
        {
            if !lines[index].as_str().is_empty() {
                assert(texts(lines@)[index as int].len() > 0);
                return true;
            }
            index = index + 1;
        }
        false
    }

    /// Handles one key, as `key_handled` says. The cursor must not be
    /// astray when the key asks for the room under it.
    pub fn handle_key_event(&mut self, key: Key, lines: &Vec<String>) -> (action: KeyAction)
        requires
            !old(self).cursor_astray(key),
        ensures
            old(self).key_handled(*final(self), key, texts(lines@), action@),
    {
        let cursor: usize = match self.selected {
            Some(line) => line,
            None => 0,
        };
        if self.is_creating_room {
            match key {
                Key::Enter => {
                    if Self::any_text(lines) {
                        let name = trim_text(lines[0].as_str());
                        self.submit_room_name(name)
                    } else {
                        KeyAction::Nothing
                    }
                },
                _ => KeyAction::EditInput,
            }
        } else {
            match key {
                Key::Char(c) => {
                    if c == 'c' {
                        self.is_creating_room = true;
                        KeyAction::Nothing
                    } else if c == 'd' {
                        if self.room_names.len() == 0 {
                            KeyAction::Nothing
                        } else {
                            KeyAction::Send(
                                ClientMessage::DeleteRoom { name: self.room_names[cursor].clone() },
                            )
                        }
                    } else if c == 'j' {
                        self.move_down();
                        KeyAction::Nothing
                    } else if c == 'k' {
                        self.move_up();
                        KeyAction::Nothing
                    } else {
                        KeyAction::Nothing
                    }
                },
                Key::Down => {
                    self.move_down();
                    KeyAction::Nothing
                },
                Key::Up => {
                    self.move_up();
                    KeyAction::Nothing
                },
                _ => KeyAction::Nothing,
            }
        }
    }

    /// The names of `page`, laid at the offset of a page of their number,
    /// end within the total that the page gives.
    pub open spec fn page_fits(page: Listing) -> bool {
        page.page * page.room_names.len() + page.room_names.len() <= page.total_room_count
    }

    /// What taking in a page does to the list `self`. The list is as long
    /// as the total that the page gives: where it had another length, all
    /// its names are empty first. Then the names of the page stand at the
    /// offset of a page of their number. Nothing else changes.
    pub open spec fn page_merged(&self, after: RoomListState, page: Listing) -> bool {
        let count = page.room_names.len() as int;
        let start = page.page * count;
        let total = page.total_room_count as int;
        let base = if self.room_names@.len() == total {
            texts(self.room_names@)
        } else {
            Seq::new(total as nat, |i: int| Seq::<char>::empty())
        };
        &&& texts(after.room_names@) == base.subrange(0, start) + page.room_names
            + base.subrange(start + count, total)
        &&& after.is_creating_room == self.is_creating_room
        &&& after.room_total_count == self.room_total_count
        &&& after.selected == self.selected
    }

    /// Whether `apply_page` may be called with this page.
    pub fn fits(page: &RoomListPage) -> (fitting: bool)
        ensures
            fitting == Self::page_fits(page@),
    {
        let count: usize = page.room_names.len();
        match page.page.checked_mul(count) {
            Some(start) => match start.checked_add(count) {
                Some(end) => end <= page.total_room_count,
                None => false,
            },
            None => {
                assert(page.page * count >= 0) by (nonlinear_arith);
                false
            },
        }
    }

    /// Takes in one page of the listing, as `page_merged` says.
    pub fn apply_page(&mut self, page: &RoomListPage)
        requires
            Self::page_fits(page@),
        ensures
            old(self).page_merged(*final(self), page@),
    {
        let count: usize = page.room_names.len();
        let total: usize = page.total_room_count;
        assert(page.page * count >= 0) by (nonlinear_arith);
        let start: usize = page.page * count;
        let keep: bool = self.room_names.len() == total;
        let ghost base = if keep {
            texts(self.room_names@)
        } else {
            Seq::new(total as nat, |i: int| Seq::<char>::empty())
        };
        let mut merged: Vec<String> = Vec::new();
        let mut index: usize = 0;
        while index < total
            invariant
                index <= total,
                start + count <= total,
                count == page.room_names@.len(),
                keep == (self.room_names@.len() == total),
                base.len() == total,
                keep ==> base == texts(self.room_names@),
                !keep ==> base == Seq::new(total as nat, |i: int| Seq::<char>::empty()),
                merged@.len() == index,
                forall|i: int|
                    0 <= i < index ==> (#[trigger] merged@[i])@ == if start <= i < start + count {
                        page.room_names@[i - start]@
                    } else {
                        base[i]
                    },
            decreases total - index,
        {
            if index >= start && index - start < count {
                merged.push(page.room_names[index - start].clone());
            } else if keep {
                merged.push(self.room_names[index].clone());
            } else {
                merged.push(String::new());
            }
            index = index + 1;
        }
        self.room_names = merged;
        assert(texts(self.room_names@) =~= base.subrange(0, start as int) + texts(
            page.room_names@,
        ) + base.subrange(start + count, total as int));
    }

    /// Moves the cursor one line down, as far as there are lines.
    fn move_down(&mut self)
        ensures
            *final(self) == (RoomListState {
                selected: Some(old(self).cursor_below() as usize),
                ..*old(self)
            }),
    {
        let cursor: usize = match self.selected {
            Some(line) => line,
            None => 0,
        };
        let last: usize = if self.room_total_count == 0 {
            0
        } else {
            self.room_total_count - 1
        };
        let below: usize = if cursor < last {
            cursor + 1
        } else {
            last
        };
        self.selected = Some(below);
    }

    /// Moves the cursor one line up, as far as there are lines.
    fn move_up(&mut self)
        ensures
            *final(self) == (RoomListState {
                selected: Some(old(self).cursor_above() as usize),
                ..*old(self)
            }),
    {
        let cursor: usize = match self.selected {
            Some(line) => line,
            None => 0,
        };
        let above: usize = if cursor == 0 {
            0
        } else {
            cursor - 1
        };
        self.selected = Some(above);
    }
}

/// What the front end knows: who is logged in, the rooms, and the list.
#[derive(Debug, Clone, PartialEq, Eq)]
pub struct UiState {
    username: String,
    pub room_data: Vec<Room>,
    pub room_list: RoomListState,
}

impl UiState {
    /// The name under which the user is logged in.
    pub closed spec fn username(&self) -> Seq<char> {
        self.username@
    }

    /// The rooms that are known in full.
    pub closed spec fn rooms(&self) -> Seq<Room> {
        self.room_data@
    }

    /// The list of rooms on the screen.
    pub closed spec fn list(&self) -> RoomListState {
        self.room_list
    }

    /// The state at the start: no rooms, the text field closed, the cursor
    /// on the first line.
    pub fn from(username: &String) -> (state: Self)
        ensures
            state.username() == username@,
            state.rooms().len() == 0,
            !state.list().is_creating_room,
            state.list().room_names@.len() == 0,
            state.list().room_total_count == 0,
            state.list().selected == Some(0usize),
    {
        UiState {
            username: username.clone(),
            room_data: Vec::new(),
            room_list: RoomListState {
                is_creating_room: false,
                room_names: Vec::new(),
                room_total_count: 0,
                selected: Some(0),
            },
        }
    }

    /// The name under which the user is logged in.
    pub fn get_username(&self) -> (username: &str)
        ensures
            username@ == self.username(),
    {
        self.username.as_str()
    }
}

} // verus!
