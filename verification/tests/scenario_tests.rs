use retro_chat::client::{handshake, Client};
use retro_chat::hub::{Delivery, Hub};
use retro_chat::session::{Phase, Session};

struct Seat {
    id: u64,
    session: Session,
    client: Client,
}

fn connect(hub: &mut Hub, name: &str, time: &str) -> Seat {
    let id = hub.subscribe().unwrap();
    let mut session = Session::new();
    let first = handshake(name).unwrap();
    let reaction = session.line_read(first.trim_end_matches('\n'), time);
    hub.publish(id, reaction.publish.unwrap());
    Seat { id, session, client: Client::new() }
}

fn say(hub: &mut Hub, seat: &mut Seat, text: &str, time: &str) {
    let frame = seat.client.send_message(text).frame.unwrap();
    let reaction = seat.session.line_read(frame.trim_end_matches('\n'), time);
    hub.publish(seat.id, reaction.publish.unwrap());
}

fn relay(hub: &mut Hub, seat: &mut Seat) -> u64 {
    let mut missed = 0;
    loop {
        let delivery = hub.receive(seat.id);
        if delivery == Delivery::Idle || delivery == Delivery::Unknown {
            return missed;
        }
        let reaction = seat.session.delivered(delivery);
        missed += reaction.missed;
        if let Some(frame) = reaction.write {
            seat.client.receive_line(frame.trim_end_matches('\n'));
        }
    }
}

#[test]
fn alice_says_hello_and_bob_sees_it() {
    let mut hub = Hub::new(100).unwrap();
    let mut alice = connect(&mut hub, "alice", "12:00:00");
    let mut bob = connect(&mut hub, "bob", "12:00:01");
    relay(&mut hub, &mut alice);
    relay(&mut hub, &mut bob);
    say(&mut hub, &mut alice, "hello", "12:00:02");
    relay(&mut hub, &mut alice);
    relay(&mut hub, &mut bob);
    assert!(bob.client.transcript().ends_with("┌─[12:00:02]\n└─ alice : hello\n"));
    assert!(bob.client.transcript().contains("alice"));
    assert!(bob.client.transcript().contains("hello"));
    assert!(!alice.client.transcript().contains("hello"));
    assert_eq!(alice.client.transcript(), "\n[bob joined the chat]\n");
    assert_eq!(bob.client.transcript(), "┌─[12:00:02]\n└─ alice : hello\n");
}

#[test]
fn departure_is_seen_by_those_who_stay() {
    let mut hub = Hub::new(100).unwrap();
    let mut alice = connect(&mut hub, "alice", "12:00:00");
    let mut bob = connect(&mut hub, "bob", "12:00:01");
    let mut carol = connect(&mut hub, "carol", "12:00:02");
    relay(&mut hub, &mut alice);
    relay(&mut hub, &mut bob);
    relay(&mut hub, &mut carol);
    let reaction = alice.session.disconnected("12:05:00");
    assert!(reaction.stop);
    hub.publish(alice.id, reaction.publish.unwrap());
    assert!(hub.unsubscribe(alice.id));
    alice.session.released();
    assert_eq!(alice.session.phase(), Phase::Closed);
    relay(&mut hub, &mut bob);
    relay(&mut hub, &mut carol);
    assert!(bob.client.transcript().ends_with("\n[alice left the chat]\n"));
    assert!(carol.client.transcript().ends_with("\n[alice left the chat]\n"));
    assert_eq!(hub.subscriber_count(), 2);
}

#[test]
fn each_of_many_sessions_sees_the_others() {
    let mut hub = Hub::new(100).unwrap();
    let names = ["ann", "ben", "cat", "dan", "eve"];
    let mut seats: Vec<Seat> = Vec::new();
    for name in names {
        seats.push(connect(&mut hub, name, "08:00:00"));
    }
    for seat in seats.iter_mut() {
        relay(&mut hub, seat);
        seat.client.send_message("/clear");
    }
    say(&mut hub, &mut seats[2], "first", "08:00:01");
    say(&mut hub, &mut seats[2], "second", "08:00:02");
    for (i, seat) in seats.iter_mut().enumerate() {
        assert_eq!(relay(&mut hub, seat), 0);
        if i == 2 {
            assert_eq!(seat.client.transcript(), "");
        } else {
            assert_eq!(
                seat.client.transcript(),
                "┌─[08:00:01]\n└─ cat : first\n┌─[08:00:02]\n└─ cat : second\n"
            );
        }
    }
}

#[test]
fn paused_session_learns_what_it_missed_and_goes_on() {
    let mut hub = Hub::new(4).unwrap();
    let mut alice = connect(&mut hub, "alice", "12:00:00");
    let mut bob = connect(&mut hub, "bob", "12:00:01");
    relay(&mut hub, &mut alice);
    relay(&mut hub, &mut bob);
    for i in 0..7 {
        say(&mut hub, &mut alice, &format!("m{}", i), "12:00:02");
    }
    assert_eq!(relay(&mut hub, &mut bob), 3);
    assert_eq!(bob.session.phase(), Phase::Active);
    assert_eq!(
        bob.client.transcript(),
        "┌─[12:00:02]\n└─ alice : m3\n┌─[12:00:02]\n└─ alice : m4\n┌─[12:00:02]\n└─ alice : m5\n┌─[12:00:02]\n└─ alice : m6\n"
    );
}

#[test]
fn local_commands_never_reach_the_hub() {
    let mut hub = Hub::new(16).unwrap();
    let mut alice = connect(&mut hub, "alice", "12:00:00");
    let mut bob = connect(&mut hub, "bob", "12:00:01");
    relay(&mut hub, &mut alice);
    let taken = hub.published();
    for text in ["/help", "/clear", "", "/quit"] {
        assert_eq!(alice.client.send_message(text).frame, None);
    }
    assert_eq!(hub.published(), taken);
    assert_eq!(alice.client.transcript(), "");
    assert!(!alice.client.is_running());
    say(&mut hub, &mut bob, "/shrug", "12:00:02");
    assert_eq!(hub.published(), taken + 1);
}
