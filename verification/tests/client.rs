use whyrc::client::{
    judge_login_reply, login_message, ClientError, LoginAttempt, LoginError, NetworkSetupError,
    LOGIN_TIMEOUT_MS, RECEIVE_TIMEOUT_MS,
};
use whyrc::ui::UIError;
use whyrc::names::{placement, Placement};
use whyrc::protocol::{ClientMessage, RoomListPage, ServerMessage};

#[test]
fn login_message_carries_name_and_password() {
    assert_eq!(
        login_message("alice", "pw"),
        ClientMessage::Login { username: String::from("alice"), password: String::from("pw") }
    );
}

#[test]
fn successful_login_is_accepted() {
    assert_eq!(judge_login_reply(ServerMessage::LoginSuccessful), Ok(()));
}

#[test]
fn error_reply_means_invalid_credentials() {
    assert_eq!(
        judge_login_reply(ServerMessage::Error { cause: String::from("nope") }),
        Err(LoginError::InvalidCredentials(String::from("nope")))
    );
}

#[test]
fn any_other_reply_is_invalid() {
    assert_eq!(judge_login_reply(ServerMessage::Ack), Err(LoginError::InvalidResponse));
    assert_eq!(judge_login_reply(ServerMessage::Pong), Err(LoginError::InvalidResponse));
    assert_eq!(
        judge_login_reply(ServerMessage::RoomList(RoomListPage::default())),
        Err(LoginError::InvalidResponse)
    );
}

#[test]
fn login_times_out_after_ten_seconds_of_silence() {
    assert_eq!(RECEIVE_TIMEOUT_MS, 200);
    assert_eq!(LOGIN_TIMEOUT_MS, 10_000);
    let mut attempt = LoginAttempt::new();
    assert_eq!(attempt.waited_ms(), 0);
    for round in 1..50u64 {
        assert_eq!(attempt.on_silence(), None);
        assert_eq!(attempt.waited_ms(), round * 200);
    }
    assert_eq!(attempt.on_silence(), Some(LoginError::ServerTimeout));
    assert_eq!(attempt.waited_ms(), 10_000);
    assert_eq!(attempt.on_silence(), Some(LoginError::ServerTimeout));
    assert_eq!(attempt.waited_ms(), 10_000);
}

#[test]
fn names_are_placed_character_by_character() {
    assert_eq!(placement("", ""), Placement::Same);
    assert_eq!(placement("abc", "abc"), Placement::Same);
    assert_eq!(placement("", "a"), Placement::Before);
    assert_eq!(placement("a", ""), Placement::After);
    assert_eq!(placement("ab", "abc"), Placement::Before);
    assert_eq!(placement("abd", "abc"), Placement::After);
    assert_eq!(placement("Z", "a"), Placement::Before);
    assert_eq!(placement("b", "abc"), Placement::After);
    assert_eq!(placement("\u{ffff}", "\u{10000}"), Placement::Before);
    assert_eq!(placement("z", "\u{e9}"), Placement::Before);
}

#[test]
fn placement_agrees_with_the_order_of_strings() {
    let samples = ["", "a", "ab", "b", "A", "\u{e9}", "\u{10000}", "a\u{800}", "a\u{7ff}", "~"];
    for left in samples {
        for right in samples {
            let expected = if left < right {
                Placement::Before
            } else if left == right {
                Placement::Same
            } else {
                Placement::After
            };
            assert_eq!(placement(left, right), expected);
        }
    }
}

fn attempt_after(silent_reads: u32) -> LoginAttempt {
    let mut attempt = LoginAttempt::new();
    for _ in 0..silent_reads {
        attempt.on_silence();
    }
    attempt
}

#[test]
fn reply_ends_the_login() {
    let mut attempt = attempt_after(3);
    let outcome = attempt.on_receive(Ok(Some(ServerMessage::LoginSuccessful)));
    assert!(matches!(outcome, Some(Ok(()))));
    assert_eq!(attempt, attempt_after(3));

    let outcome =
        attempt.on_receive(Ok(Some(ServerMessage::Error { cause: String::from("taken") })));
    match outcome {
        Some(Err(NetworkSetupError::LoginError(LoginError::InvalidCredentials(cause)))) => {
            assert_eq!(cause, "taken")
        }
        other => panic!("unexpected: {:?}", other),
    }

    let outcome = attempt.on_receive(Ok(Some(ServerMessage::Pong)));
    assert!(matches!(
        outcome,
        Some(Err(NetworkSetupError::LoginError(LoginError::InvalidResponse)))
    ));
}

#[test]
fn silence_goes_on_until_the_bound() {
    let mut attempt = LoginAttempt::new();
    for _ in 0..49 {
        assert!(attempt.on_receive(Ok(None)).is_none());
    }
    assert!(matches!(
        attempt.on_receive(Ok(None)),
        Some(Err(NetworkSetupError::LoginError(LoginError::ServerTimeout)))
    ));
    assert_eq!(attempt.waited_ms(), 10_000);
}

#[test]
fn failure_of_the_transport_ends_the_login() {
    let mut attempt = attempt_after(2);
    let failure = std::io::Error::new(std::io::ErrorKind::ConnectionReset, "reset");
    match attempt.on_receive(Err(failure)) {
        Some(Err(NetworkSetupError::TcpError(err))) => {
            assert_eq!(err.kind(), std::io::ErrorKind::ConnectionReset)
        }
        other => panic!("unexpected: {:?}", other),
    }
    assert_eq!(attempt, attempt_after(2));
}

#[test]
fn errors_wrap_their_causes() {
    let io = || std::io::Error::new(std::io::ErrorKind::Other, "x");
    assert!(matches!(NetworkSetupError::from(io()), NetworkSetupError::TcpError(_)));
    assert!(matches!(
        NetworkSetupError::from(LoginError::InvalidResponse),
        NetworkSetupError::LoginError(LoginError::InvalidResponse)
    ));
    assert!(matches!(ClientError::from(io()), ClientError::ConnectionError(_)));
    assert!(matches!(
        ClientError::from(NetworkSetupError::from(io())),
        ClientError::NetworkSetupError(NetworkSetupError::TcpError(_))
    ));
    assert!(matches!(
        ClientError::from(LoginError::ServerTimeout),
        ClientError::LoginError(LoginError::ServerTimeout)
    ));
    assert!(matches!(
        ClientError::from(UIError::from(io())),
        ClientError::UIError(UIError::IOError(_))
    ));
    assert!(matches!(
        UIError::from(std::sync::mpsc::RecvError),
        UIError::EventError(std::sync::mpsc::RecvError)
    ));
}
