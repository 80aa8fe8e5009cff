use retro_chat::hub::Delivery;
use retro_chat::message::{Message, MessageKind};
use retro_chat::session::{Phase, Reaction, Session};
use retro_chat::wire::{decode, encode};

fn nothing() -> Reaction {
    Reaction { publish: None, write: None, missed: 0, stop: false }
}

fn active(name: &str) -> Session {
    let mut session = Session::new();
    session.line_read(name, "00:00:00");
    session
}

#[test]
fn session_starts_with_the_handshake() {
    let session = Session::new();
    assert_eq!(session.phase(), Phase::Handshake);
    assert_eq!(session.username(), "");
}

#[test]
fn handshake_names_the_user_and_announces_it() {
    let mut session = Session::new();
    let reaction = session.line_read("  alice \r", "12:00:00");
    assert_eq!(session.phase(), Phase::Active);
    assert_eq!(session.username(), "alice");
    let notice = Message::joined("alice", "12:00:00").unwrap();
    assert_eq!(
        reaction,
        Reaction { publish: Some(encode(&notice)), write: None, missed: 0, stop: false }
    );
}

#[test]
fn handshake_without_a_name_ends_the_session() {
    let mut session = Session::new();
    let reaction = session.line_read(" \t ", "12:00:00");
    assert_eq!(session.phase(), Phase::Closing);
    assert_eq!(reaction, Reaction { publish: None, write: None, missed: 0, stop: true });
    let mut empty = Session::new();
    assert!(empty.line_read("", "12:00:00").stop);
    assert_eq!(empty.phase(), Phase::Closing);
}

#[test]
fn line_of_an_active_session_is_published_as_said() {
    let mut session = active("alice");
    let reaction = session.line_read("hello", "12:00:01");
    assert_eq!(session.phase(), Phase::Active);
    assert_eq!(
        reaction.publish,
        Some(
            "{\"username\":\"alice\",\"content\":\"hello\",\"timestamp\":\"12:00:01\",\"message_type\":\"UserMessage\"}"
                .to_string()
        )
    );
    assert_eq!(reaction.write, None);
    assert_eq!(reaction.missed, 0);
    assert!(!reaction.stop);
}

#[test]
fn line_is_published_as_it_stands() {
    let mut session = active("alice");
    let reaction = session.line_read("  /help \"x\" ", "t");
    let message = decode(&reaction.publish.unwrap()).unwrap();
    assert_eq!(message.content, "  /help \"x\" ");
    assert_eq!(message.username, "alice");
    assert_eq!(message.kind, MessageKind::UserMessage);
}

#[test]
fn empty_line_says_nothing() {
    let mut session = active("alice");
    assert_eq!(session.line_read("", "12:00:01"), nothing());
    assert_eq!(session.phase(), Phase::Active);
}

#[test]
fn active_session_relays_what_the_hub_hands_out() {
    let session = active("alice");
    assert_eq!(
        session.delivered(Delivery::Text("frame".to_string())),
        Reaction { publish: None, write: Some("frame\n".to_string()), missed: 0, stop: false }
    );
    assert_eq!(
        session.delivered(Delivery::Missed(5)),
        Reaction { publish: None, write: None, missed: 5, stop: false }
    );
    assert_eq!(session.delivered(Delivery::Idle), nothing());
    assert_eq!(session.delivered(Delivery::Unknown), nothing());
}

#[test]
fn session_relays_only_while_active() {
    let fresh = Session::new();
    assert_eq!(fresh.delivered(Delivery::Text("frame".to_string())), nothing());
    assert_eq!(fresh.delivered(Delivery::Missed(3)), nothing());
    let mut ended = active("alice");
    ended.disconnected("t");
    assert_eq!(ended.delivered(Delivery::Text("frame".to_string())), nothing());
}

#[test]
fn closing_an_active_session_announces_the_departure() {
    let mut session = active("alice");
    let reaction = session.disconnected("12:30:00");
    assert_eq!(session.phase(), Phase::Closing);
    let notice = Message::left("alice", "12:30:00").unwrap();
    assert_eq!(
        reaction,
        Reaction { publish: Some(encode(&notice)), write: None, missed: 0, stop: true }
    );
    let read = decode(&reaction.publish.unwrap()).unwrap();
    assert_eq!(read.kind, MessageKind::SystemNotification);
    assert_eq!(read.username, "alice");
    assert_eq!(read.content, "left the chat");
}

#[test]
fn closing_before_the_handshake_announces_nothing() {
    let mut session = Session::new();
    let reaction = session.disconnected("12:30:00");
    assert_eq!(session.phase(), Phase::Closing);
    assert_eq!(reaction, Reaction { publish: None, write: None, missed: 0, stop: true });
}

#[test]
fn closing_session_does_nothing_more() {
    let mut session = active("alice");
    session.disconnected("t");
    assert_eq!(session.disconnected("t"), nothing());
    assert_eq!(session.line_read("late", "t"), nothing());
    assert_eq!(session.phase(), Phase::Closing);
    session.released();
    assert_eq!(session.phase(), Phase::Closed);
    assert_eq!(session.line_read("later", "t"), nothing());
    assert_eq!(session.disconnected("t"), nothing());
    session.released();
    assert_eq!(session.phase(), Phase::Closed);
}

#[test]
fn release_ends_only_a_closing_session() {
    let mut fresh = Session::new();
    fresh.released();
    assert_eq!(fresh.phase(), Phase::Handshake);
    let mut running = active("alice");
    running.released();
    assert_eq!(running.phase(), Phase::Active);
}

#[test]
fn line_read_now_stamps_the_message_with_the_time() {
    let mut session = Session::new();
    let joined = session.line_read_now("alice").publish.unwrap();
    let notice = decode(&joined).unwrap();
    assert_eq!(notice.username, "alice");
    assert_eq!(notice.content, "joined the chat");
    let stamp: Vec<char> = notice.timestamp.chars().collect();
    assert_eq!(stamp.len(), 8);
    for i in [0usize, 1, 3, 4, 6, 7] {
        assert!(stamp[i].is_ascii_digit());
    }
    assert_eq!(stamp[2], ':');
    assert_eq!(stamp[5], ':');
    let said = decode(&session.line_read_now("hi").publish.unwrap()).unwrap();
    assert_eq!(said.content, "hi");
    assert_eq!(said.kind, MessageKind::UserMessage);
    assert_eq!(said.timestamp.chars().filter(|c| *c == ':').count(), 2);
    let left = decode(&session.disconnected_now().publish.unwrap()).unwrap();
    assert_eq!(left.content, "left the chat");
    assert_eq!(left.timestamp.len(), 8);
}
