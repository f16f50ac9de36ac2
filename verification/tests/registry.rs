use whyrc::chat::{Chat, DEFAULT_PAGE_SIZE, MAX_NUM_ROOMS};
use whyrc::protocol::{PeerAddr, Room, RoomListPage, ServerMessage};

fn error(cause: &str) -> ServerMessage {
    ServerMessage::Error { cause: String::from(cause) }
}

fn listing(names: &[&str], page: usize, total: usize) -> ServerMessage {
    ServerMessage::RoomList(RoomListPage {
        room_names: names.iter().map(|name| String::from(*name)).collect(),
        page,
        total_room_count: total,
    })
}

fn all_names(chat: &Chat) -> Vec<String> {
    match chat.list_rooms(0, Some(1000)) {
        ServerMessage::RoomList(page) => page.room_names,
        other => panic!("no listing: {:?}", other),
    }
}

fn addr(last: u32, port: u16) -> PeerAddr {
    PeerAddr::V4 { octets: 0x7f00_0000 + last, port }
}

#[test]
fn new_registry_is_empty() {
    let chat = Chat::new();
    assert_eq!(chat.list_rooms(0, Some(20)), listing(&[], 0, 0));
    assert_eq!(chat.list_all_rooms(Some(20)), Vec::<ServerMessage>::new());
}

#[test]
fn created_room_is_listed() {
    let mut chat = Chat::new();
    let answer = chat.add_room(String::from("general"));
    assert_eq!(answer, vec![listing(&["general"], 0, 1)]);
    assert_eq!(chat.list_rooms(0, Some(20)), listing(&["general"], 0, 1));
}

#[test]
fn forty_five_rooms_make_three_pages() {
    let mut chat = Chat::new();
    for i in (0..45).rev() {
        chat.add_room(format!("room-{:02}", i));
    }
    let pages = chat.list_all_rooms(Some(20));
    assert_eq!(pages.len(), 3);
    let mut sizes = Vec::new();
    let mut joined = Vec::new();
    for (index, page) in pages.iter().enumerate() {
        match page {
            ServerMessage::RoomList(page) => {
                assert_eq!(page.page, index);
                assert_eq!(page.total_room_count, 45);
                sizes.push(page.room_names.len());
                joined.extend(page.room_names.iter().cloned());
            }
            other => panic!("no listing: {:?}", other),
        }
    }
    assert_eq!(sizes, vec![20, 20, 5]);
    let expected: Vec<String> = (0..45).map(|i| format!("room-{:02}", i)).collect();
    assert_eq!(joined, expected);
}

#[test]
fn creating_answers_with_all_pages_of_default_size() {
    let mut chat = Chat::new();
    let mut last = Vec::new();
    for i in 0..(DEFAULT_PAGE_SIZE + 1) {
        last = chat.add_room(format!("r{:03}", i));
    }
    assert_eq!(last.len(), 2);
    match (&last[0], &last[1]) {
        (ServerMessage::RoomList(first), ServerMessage::RoomList(second)) => {
            assert_eq!(first.room_names.len(), DEFAULT_PAGE_SIZE);
            assert_eq!(first.page, 0);
            assert_eq!(second.room_names, vec![String::from("r040")]);
            assert_eq!(second.page, 1);
            assert_eq!(second.total_room_count, DEFAULT_PAGE_SIZE + 1);
        }
        other => panic!("no listings: {:?}", other),
    }
}

#[test]
fn rooms_are_listed_in_the_order_of_their_names() {
    let mut chat = Chat::new();
    let names =
        ["pear", "apple", "zebra", "Zebra", "app", "apple pie", "", "\u{e9}t\u{e9}", "10", "9"];
    for name in names {
        chat.add_room(String::from(name));
    }
    let mut expected: Vec<String> = names.iter().map(|name| String::from(*name)).collect();
    expected.sort();
    assert_eq!(all_names(&chat), expected);
    assert_eq!(
        all_names(&chat),
        vec!["", "10", "9", "Zebra", "app", "apple", "apple pie", "pear", "zebra", "\u{e9}t\u{e9}"]
    );
}

#[test]
fn order_of_names_is_that_of_their_bytes() {
    let mut chat = Chat::new();
    let names = ["\u{10000}", "\u{ffff}", "\u{7ff}", "\u{800}", "~", "\u{80}"];
    for name in names {
        chat.add_room(String::from(name));
    }
    let mut expected: Vec<String> = names.iter().map(|name| String::from(*name)).collect();
    expected.sort();
    assert_eq!(all_names(&chat), expected);
}

#[test]
fn creating_a_room_twice_changes_nothing() {
    let mut chat = Chat::new();
    chat.add_room(String::from("general"));
    chat.add_room(String::from("random"));
    let before = all_names(&chat);
    let answer = chat.add_room(String::from("general"));
    assert_eq!(answer, vec![error("Room with name general already exists")]);
    assert_eq!(all_names(&chat), before);
}

#[test]
fn full_registry_takes_no_room() {
    let mut chat = Chat::new();
    for i in 0..MAX_NUM_ROOMS {
        let answer = chat.add_room(format!("room-{:03}", i));
        assert_eq!(answer.len(), (i + 1 + DEFAULT_PAGE_SIZE - 1) / DEFAULT_PAGE_SIZE);
    }
    let before = all_names(&chat);
    assert_eq!(before.len(), 200);
    let answer = chat.add_room(String::from("one-more"));
    assert_eq!(
        answer,
        vec![error("200 rooms already exist. Please delete one or more before creating a room.")]
    );
    assert_eq!(all_names(&chat), before);
}

#[test]
fn taken_name_is_reported_before_the_limit() {
    let mut chat = Chat::new();
    for i in 0..MAX_NUM_ROOMS {
        chat.add_room(format!("room-{:03}", i));
    }
    let answer = chat.add_room(String::from("room-007"));
    assert_eq!(answer, vec![error("Room with name room-007 already exists")]);
}

#[test]
fn room_can_be_created_again_after_one_is_deleted_from_a_full_registry() {
    let mut chat = Chat::new();
    for i in 0..MAX_NUM_ROOMS {
        chat.add_room(format!("room-{:03}", i));
    }
    assert_eq!(chat.remove_room(String::from("room-100")), ServerMessage::Ack);
    let answer = chat.add_room(String::from("one-more"));
    assert_eq!(answer.len(), 5);
    assert_eq!(all_names(&chat).len(), 200);
}

#[test]
fn deleting_a_missing_room_changes_nothing() {
    let mut chat = Chat::new();
    chat.add_room(String::from("general"));
    let answer = chat.remove_room(String::from("lobby"));
    assert_eq!(answer, error("Room with name lobby doesn't exist"));
    assert_eq!(all_names(&chat), vec!["general"]);
}

#[test]
fn deleting_removes_that_room_only() {
    let mut chat = Chat::new();
    for name in ["a", "b", "c", "d"] {
        chat.add_room(String::from(name));
    }
    assert_eq!(chat.remove_room(String::from("b")), ServerMessage::Ack);
    assert_eq!(all_names(&chat), vec!["a", "c", "d"]);
    assert_eq!(chat.remove_room(String::from("a")), ServerMessage::Ack);
    assert_eq!(chat.remove_room(String::from("d")), ServerMessage::Ack);
    assert_eq!(all_names(&chat), vec!["c"]);
    assert_eq!(chat.remove_room(String::from("b")), error("Room with name b doesn't exist"));
}

#[test]
fn list_rooms_pages() {
    let mut chat = Chat::new();
    for name in ["a", "b", "c", "d", "e"] {
        chat.add_room(String::from(name));
    }
    assert_eq!(chat.list_rooms(0, Some(2)), listing(&["a", "b"], 0, 5));
    assert_eq!(chat.list_rooms(1, Some(2)), listing(&["c", "d"], 1, 5));
    assert_eq!(chat.list_rooms(2, Some(2)), listing(&["e"], 2, 5));
    assert_eq!(chat.list_rooms(3, Some(2)), listing(&[], 3, 5));
    assert_eq!(chat.list_rooms(0, Some(0)), listing(&[], 0, 5));
    assert_eq!(chat.list_rooms(0, None), listing(&["a", "b", "c", "d", "e"], 0, 5));
}

#[test]
fn list_rooms_without_a_size_uses_forty() {
    let mut chat = Chat::new();
    for i in 0..50 {
        chat.add_room(format!("r{:02}", i));
    }
    match chat.list_rooms(0, None) {
        ServerMessage::RoomList(page) => assert_eq!(page.room_names.len(), 40),
        other => panic!("no listing: {:?}", other),
    }
    assert_eq!(chat.list_all_rooms(None).len(), 2);
}

#[test]
fn list_all_rooms_counts_pages_by_rounding_up() {
    let mut chat = Chat::new();
    for i in 0..6 {
        chat.add_room(format!("r{}", i));
    }
    assert_eq!(chat.list_all_rooms(Some(1)).len(), 6);
    assert_eq!(chat.list_all_rooms(Some(2)).len(), 3);
    assert_eq!(chat.list_all_rooms(Some(3)).len(), 2);
    assert_eq!(chat.list_all_rooms(Some(4)).len(), 2);
    assert_eq!(chat.list_all_rooms(Some(6)).len(), 1);
    assert_eq!(chat.list_all_rooms(Some(7)).len(), 1);
    assert_eq!(chat.list_all_rooms(Some(0)).len(), 0);
    assert_eq!(
        chat.list_all_rooms(Some(4)),
        vec![listing(&["r0", "r1", "r2", "r3"], 0, 6), listing(&["r4", "r5"], 1, 6)]
    );
}

#[test]
fn second_holder_of_a_username_is_refused() {
    let mut chat = Chat::new();
    let first = chat.set_username(addr(1, 5000), String::from("alice"));
    let second = chat.set_username(addr(2, 5000), String::from("alice"));
    assert_eq!(first, ServerMessage::Ack);
    assert_eq!(second, error("A user with name \"alice\" already exists!"));
    // the first binding stands: once it is gone the name is free again
    chat.remove_user(addr(2, 5000));
    assert_eq!(
        chat.set_username(addr(3, 5000), String::from("alice")),
        error("A user with name \"alice\" already exists!")
    );
    chat.remove_user(addr(1, 5000));
    assert_eq!(chat.set_username(addr(3, 5000), String::from("alice")), ServerMessage::Ack);
}

#[test]
fn connection_may_take_another_username() {
    let mut chat = Chat::new();
    assert_eq!(chat.set_username(addr(1, 1), String::from("alice")), ServerMessage::Ack);
    assert_eq!(chat.set_username(addr(1, 1), String::from("bob")), ServerMessage::Ack);
    // the old name is free, the new one is held
    assert_eq!(chat.set_username(addr(2, 1), String::from("alice")), ServerMessage::Ack);
    assert_eq!(
        chat.set_username(addr(3, 1), String::from("bob")),
        error("A user with name \"bob\" already exists!")
    );
}

#[test]
fn connection_cannot_take_its_own_username_again() {
    let mut chat = Chat::new();
    assert_eq!(chat.set_username(addr(1, 1), String::from("alice")), ServerMessage::Ack);
    assert_eq!(
        chat.set_username(addr(1, 1), String::from("alice")),
        error("A user with name \"alice\" already exists!")
    );
}

#[test]
fn username_is_free_after_its_holder_left() {
    let mut chat = Chat::new();
    assert_eq!(chat.set_username(addr(1, 1), String::from("alice")), ServerMessage::Ack);
    chat.remove_user(addr(1, 1));
    assert_eq!(chat.set_username(addr(9, 9), String::from("alice")), ServerMessage::Ack);
}

#[test]
fn removing_an_unknown_user_changes_nothing() {
    let mut chat = Chat::new();
    chat.remove_user(addr(1, 1));
    assert_eq!(chat.set_username(addr(1, 1), String::from("alice")), ServerMessage::Ack);
    chat.remove_user(addr(2, 1));
    chat.remove_user(addr(1, 2));
    assert_eq!(
        chat.set_username(addr(2, 1), String::from("alice")),
        error("A user with name \"alice\" already exists!")
    );
    chat.remove_user(addr(1, 1));
    chat.remove_user(addr(1, 1));
    assert_eq!(chat.set_username(addr(2, 1), String::from("alice")), ServerMessage::Ack);
}

#[test]
fn addresses_differ_by_any_of_their_parts() {
    let mut chat = Chat::new();
    let peers = [
        PeerAddr::V4 { octets: 1, port: 1 },
        PeerAddr::V4 { octets: 1, port: 2 },
        PeerAddr::V6 { segments: 1, port: 1, flowinfo: 0, scope_id: 0 },
        PeerAddr::V6 { segments: 1, port: 1, flowinfo: 1, scope_id: 0 },
        PeerAddr::V6 { segments: 1, port: 1, flowinfo: 0, scope_id: 1 },
    ];
    for (index, peer) in peers.iter().enumerate() {
        assert_eq!(chat.set_username(*peer, format!("user{}", index)), ServerMessage::Ack);
    }
    // every one of them holds its own name
    for index in 0..peers.len() {
        assert_eq!(
            chat.set_username(PeerAddr::V4 { octets: 9, port: 9 }, format!("user{}", index)),
            error(&format!("A user with name \"user{}\" already exists!", index))
        );
    }
}

#[test]
fn users_and_rooms_do_not_touch_each_other() {
    let mut chat = Chat::new();
    chat.add_room(String::from("alice"));
    assert_eq!(chat.set_username(addr(1, 1), String::from("alice")), ServerMessage::Ack);
    assert_eq!(chat.remove_room(String::from("alice")), ServerMessage::Ack);
    assert_eq!(
        chat.set_username(addr(2, 1), String::from("alice")),
        error("A user with name \"alice\" already exists!")
    );
    assert_eq!(all_names(&chat), Vec::<String>::new());
}

#[test]
fn new_room_is_empty() {
    let room = Room::from(String::from("general"));
    assert_eq!(room.name, "general");
    assert!(room.messages.is_empty());
    assert!(room.active_users.is_empty());
}

#[test]
fn page_from_names() {
    let a = String::from("a");
    let b = String::from("b");
    let c = String::from("c");
    let names = vec![&a, &b, &c];
    let page = RoomListPage::from(&names, 1, 2);
    assert_eq!(
        page,
        RoomListPage { room_names: vec![String::from("c")], page: 1, total_room_count: 3 }
    );
    assert_eq!(
        RoomListPage::default(),
        RoomListPage { room_names: Vec::new(), page: 0, total_room_count: 0 }
    );
}

#[test]
fn error_from_carries_the_cause() {
    assert_eq!(ServerMessage::error_from("no"), error("no"));
}

#[test]
fn broken_lock_is_answered_with_an_error() {
    assert_eq!(
        whyrc::chat::lock_failure(whyrc::chat::Guarded::Rooms),
        error("Failed to get rooms lock")
    );
    assert_eq!(
        whyrc::chat::lock_failure(whyrc::chat::Guarded::Users),
        error("Failed to get users lock")
    );
}
