//! One session of the server: from the handshake, through the time in which
//! it publishes what its client says and relays what the others say, to its
//! end. The session decides; reading, writing and the hub are the caller's.

use vstd::prelude::*;
use crate::clock::{clock_text, is_clock_text};
use crate::hub::{Delivery, DeliveryView, HubView};
use crate::input::{frame, frame_spec};
use crate::message::{joined_text, left_text, Message, MessageKind, MessageView};
use crate::text::{trim, trim_spec};
use crate::wire::{decode_spec, encode, encode_spec, lemma_round_trip};

verus! {

/// Where a session stands.
#[derive(Clone, Copy, Debug, PartialEq, Eq, Structural)]
pub enum Phase {
    /// Accepted; the first line, the user's name, has not come yet.
    Handshake,
    /// The name is known; the session publishes and relays.
    Active,
    /// Reading or writing has ended; the socket is to be released.
    Closing,
    /// Over.
    Closed,
}

/// The state of a session.
pub struct SessionView {
    pub phase: Phase,
    /// The user's name, fixed at the handshake; empty before it.
    pub username: Seq<char>,
}

/// What the caller is to do after an event.
#[derive(Clone, Debug, PartialEq, Eq)]
pub struct Reaction {
    /// A frame to publish to the hub.
    pub publish: Option<String>,
    /// A frame to write to the socket, with its line's end.
    pub write: Option<String>,
    /// How many messages were lost to this session; zero if none.
    pub missed: u64,
    /// Whether reading and relaying are to stop and the socket to be
    /// released.
    pub stop: bool,
}

/// The mathematical value of a [`Reaction`].
pub struct ReactionView {
    pub publish: Option<Seq<char>>,
    pub write: Option<Seq<char>>,
    pub missed: nat,
    pub stop: bool,
}

/// The text of a string that may be lacking.
pub open spec fn text_of(s: Option<String>) -> Option<Seq<char>> {
    match s {
        Some(t) => Some(t@),
        None => None,
    }
}

impl View for Reaction {
    type V = ReactionView;

    open spec fn view(&self) -> ReactionView {
        ReactionView {
            publish: text_of(self.publish),
            write: text_of(self.write),
            missed: self.missed as nat,
            stop: self.stop,
        }
    }
}

/// The reaction that asks for nothing.
pub open spec fn nothing() -> ReactionView {
    ReactionView { publish: None, write: None, missed: 0, stop: false }
}

/// The notice that `username` has joined.
pub open spec fn joined_notice(username: Seq<char>, timestamp: Seq<char>) -> MessageView {
    MessageView {
        username,
        content: joined_text(),
        timestamp,
        kind: MessageKind::SystemNotification,
    }
}

/// The notice that `username` has left.
pub open spec fn left_notice(username: Seq<char>, timestamp: Seq<char>) -> MessageView {
    MessageView {
        username,
        content: left_text(),
        timestamp,
        kind: MessageKind::SystemNotification,
    }
}

/// What `username` said.
pub open spec fn said(username: Seq<char>, content: Seq<char>, timestamp: Seq<char>) -> MessageView {
    MessageView { username, content, timestamp, kind: MessageKind::UserMessage }
}

impl SessionView {
    /// The session after the line `line` has been read. The first line is
    /// the handshake: its text, without white space around it, is the
    /// user's name, and a session without a name ends.
    pub open spec fn after_line(self, line: Seq<char>) -> SessionView {
        match self.phase {
            Phase::Handshake => if trim_spec(line).len() > 0 {
                SessionView { phase: Phase::Active, username: trim_spec(line) }
            } else {
                SessionView { phase: Phase::Closing, ..self }
            },
            _ => self,
        }
    }

    /// What is to be done after the line `line` has been read at
    /// `timestamp`: the handshake is answered by announcing the user, a
    /// line of an active session is published as what the user said, and
    /// an empty line says nothing.
    pub open spec fn line_reaction(self, line: Seq<char>, timestamp: Seq<char>) -> ReactionView {
        match self.phase {
            Phase::Handshake => if trim_spec(line).len() > 0 {
                ReactionView {
                    publish: Some(encode_spec(joined_notice(trim_spec(line), timestamp))),
                    ..nothing()
                }
            } else {
                ReactionView { stop: true, ..nothing() }
            },
            Phase::Active => if line.len() > 0 {
                ReactionView {
                    publish: Some(encode_spec(said(self.username, line, timestamp))),
                    ..nothing()
                }
            } else {
                nothing()
            },
            _ => nothing(),
        }
    }

    /// What is to be done with what the hub has handed out: an active
    /// session writes a message to its socket as one line and takes note
    /// of a loss; it goes on either way.
    pub open spec fn delivery_reaction(self, delivery: DeliveryView) -> ReactionView {
        match (self.phase, delivery) {
            (Phase::Active, DeliveryView::Text(text)) => ReactionView {
                write: Some(frame_spec(text)),
                ..nothing()
            },
            (Phase::Active, DeliveryView::Missed(n)) => ReactionView { missed: n, ..nothing() },
            _ => nothing(),
        }
    }

    /// The session after reading or writing has failed or the stream has
    /// ended.
    pub open spec fn after_disconnect(self) -> SessionView {
        match self.phase {
            Phase::Handshake | Phase::Active => SessionView { phase: Phase::Closing, ..self },
            _ => self,
        }
    }

    /// What is to be done when reading or writing has failed or the stream
    /// has ended: everything stops, and an active session announces that
    /// its user has left.
    pub open spec fn disconnect_reaction(self, timestamp: Seq<char>) -> ReactionView {
        match self.phase {
            Phase::Handshake => ReactionView { stop: true, ..nothing() },
            Phase::Active => ReactionView {
                publish: Some(encode_spec(left_notice(self.username, timestamp))),
                stop: true,
                ..nothing()
            },
            _ => nothing(),
        }
    }

    /// The session after its socket has been released.
    pub open spec fn after_release(self) -> SessionView {
        match self.phase {
            Phase::Closing => SessionView { phase: Phase::Closed, ..self },
            _ => self,
        }
    }

    /// An active session has a name.
    pub open spec fn wf(self) -> bool {
        self.phase == Phase::Active ==> self.username.len() > 0
    }
}

/// One session of the server.
pub struct Session {
    phase: Phase,
    username: String,
}

impl View for Session {
    type V = SessionView;

    closed spec fn view(&self) -> SessionView {
        SessionView { phase: self.phase, username: self.username@ }
    }
}

/// The reaction that asks for nothing.
fn no_reaction() -> (r: Reaction)
    ensures
        r@ == nothing(),
{
    Reaction { publish: None, write: None, missed: 0, stop: false }
}

impl Session {
    /// A session that has just been accepted.
    pub fn new() -> (session: Session)
        ensures
            session@ == (SessionView { phase: Phase::Handshake, username: Seq::empty() }),
            session@.wf(),
    {
        Session { phase: Phase::Handshake, username: String::new() }
    }

    /// Where the session stands.
    pub fn phase(&self) -> (phase: Phase)
        ensures
            phase == self@.phase,
    {
        self.phase
    }

    /// The user's name; empty before the handshake.
    pub fn username(&self) -> (name: &str)
        ensures
            name@ == self@.username,
    {
        self.username.as_str()
    }

    /// The line `line` has been read from the socket at `timestamp`; it is
    /// given without its end.
    pub fn line_read(&mut self, line: &str, timestamp: &str) -> (reaction: Reaction)
        requires
            old(self)@.wf(),
        ensures
            final(self)@.wf(),
            final(self)@ == old(self)@.after_line(line@),
            reaction@ == old(self)@.line_reaction(line@, timestamp@),
    {
        match self.phase {
            Phase::Handshake => {
                let name = trim(line);
                match Message::joined(name.as_str(), timestamp) {
                    Some(notice) => {
                        let text = encode(&notice);
                        self.username = name;
                        self.phase = Phase::Active;
                        Reaction { publish: Some(text), write: None, missed: 0, stop: false }
                    },
                    None => {
                        self.phase = Phase::Closing;
                        Reaction { publish: None, write: None, missed: 0, stop: true }
                    },
                }
            },
            Phase::Active => {
                match Message::user(self.username.as_str(), line, timestamp) {
                    Some(message) => {
                        let text = encode(&message);
                        Reaction { publish: Some(text), write: None, missed: 0, stop: false }
                    },
                    None => no_reaction(),
                }
            },
            _ => no_reaction(),
        }
    }

    /// The line `line` has been read from the socket now.
    pub fn line_read_now(&mut self, line: &str) -> (reaction: Reaction)
        requires
            old(self)@.wf(),
        ensures
            final(self)@.wf(),
            final(self)@ == old(self)@.after_line(line@),
            exists|timestamp: Seq<char>|
                is_clock_text(timestamp) && reaction@ == old(self)@.line_reaction(
                    line@,
                    timestamp,
                ),
    {
        let stamp = clock_text();
        self.line_read(line, stamp.as_str())
    }

    /// The hub has handed out `delivery` for this session.
    pub fn delivered(&self, delivery: Delivery) -> (reaction: Reaction)
        ensures
            reaction@ == self@.delivery_reaction(delivery@),
    {
        match self.phase {
            Phase::Active => match delivery {
                Delivery::Text(text) => Reaction {
                    publish: None,
                    write: Some(frame(text.as_str())),
                    missed: 0,
                    stop: false,
                },
                Delivery::Missed(n) => Reaction { publish: None, write: None, missed: n, stop: false },
                _ => no_reaction(),
            },
            _ => no_reaction(),
        }
    }

    /// Reading from the socket has ended or failed, or writing to it has
    /// failed, at `timestamp`.
    pub fn disconnected(&mut self, timestamp: &str) -> (reaction: Reaction)
        requires
            old(self)@.wf(),
        ensures
            final(self)@.wf(),
            final(self)@ == old(self)@.after_disconnect(),
            reaction@ == old(self)@.disconnect_reaction(timestamp@),
    {
        match self.phase {
            Phase::Handshake => {
                self.phase = Phase::Closing;
                Reaction { publish: None, write: None, missed: 0, stop: true }
            },
            Phase::Active => {
                self.phase = Phase::Closing;
                match Message::left(self.username.as_str(), timestamp) {
                    Some(notice) => Reaction {
                        publish: Some(encode(&notice)),
                        write: None,
                        missed: 0,
                        stop: true,
                    },
                    None => Reaction { publish: None, write: None, missed: 0, stop: true },
                }
            },
            _ => no_reaction(),
        }
    }

    /// Reading from the socket has ended or failed, or writing to it has
    /// failed, now.
    pub fn disconnected_now(&mut self) -> (reaction: Reaction)
        requires
            old(self)@.wf(),
        ensures
            final(self)@.wf(),
            final(self)@ == old(self)@.after_disconnect(),
            exists|timestamp: Seq<char>|
                is_clock_text(timestamp) && reaction@ == old(self)@.disconnect_reaction(timestamp),
    {
        let stamp = clock_text();
        self.disconnected(stamp.as_str())
    }

    /// The socket has been released.
    pub fn released(&mut self)
        ensures
            final(self)@ == old(self)@.after_release(),
    {
        match self.phase {
            Phase::Closing => {
                self.phase = Phase::Closed;
            },
            _ => {},
        }
    }
}

/// Fan-out: what an active session publishes for a line of its user waits
/// for every other subscriber of the hub, reads back as a message of that
/// user with that content, and does not wait for the session itself.
pub proof fn lemma_said_reaches_others(
    h: HubView,
    s: SessionView,
    origin: u64,
    other: u64,
    line: Seq<char>,
    timestamp: Seq<char>,
)
    requires
        h.wf(),
        s.wf(),
        s.phase == Phase::Active,
        line.len() > 0,
        h.subscribed(origin),
        h.subscribed(other),
        other != origin,
        h.log.len() < u64::MAX,
    ensures
        s.line_reaction(line, timestamp).publish is Some,
        ({
            let text = s.line_reaction(line, timestamp).publish.unwrap();
            let after = h.after_publish(origin, text);
            &&& after.waiting(other) == h.waiting(other).push(text)
            &&& after.waiting(origin) == h.waiting(origin)
            &&& decode_spec(text) == Some(said(s.username, line, timestamp))
        }),
{
    let text = s.line_reaction(line, timestamp).publish.unwrap();
    assert(h.ids.contains(origin));
    crate::hub::lemma_publish_reaches_others(h, origin, text, other);
    crate::hub::lemma_publish_no_echo(h, origin, text);
    lemma_round_trip(said(s.username, line, timestamp));
}

/// Departure: when the socket of an active session closes, the session
/// publishes a notice of the system with its user's name, and that notice
/// waits for every other subscriber of the hub.
pub proof fn lemma_departure_is_announced(
    h: HubView,
    s: SessionView,
    origin: u64,
    other: u64,
    timestamp: Seq<char>,
)
    requires
        h.wf(),
        s.wf(),
        s.phase == Phase::Active,
        h.subscribed(origin),
        h.subscribed(other),
        other != origin,
        h.log.len() < u64::MAX,
    ensures
        s.disconnect_reaction(timestamp).stop,
        s.disconnect_reaction(timestamp).publish is Some,
        s.after_disconnect().phase == Phase::Closing,
        ({
            let text = s.disconnect_reaction(timestamp).publish.unwrap();
            let notice = decode_spec(text);
            &&& h.after_publish(origin, text).waiting(other) == h.waiting(other).push(text)
            &&& notice == Some(left_notice(s.username, timestamp))
            &&& notice.unwrap().kind == MessageKind::SystemNotification
            &&& notice.unwrap().username == s.username
        }),
{
    let text = s.disconnect_reaction(timestamp).publish.unwrap();
    assert(h.ids.contains(origin));
    crate::hub::lemma_publish_reaches_others(h, origin, text, other);
    lemma_round_trip(left_notice(s.username, timestamp));
}

} // verus!
