//! The message: the unit that client and server exchange.

use vstd::prelude::*;

verus! {

/// What a message is: something a user said, or a notice of the system.
#[derive(Clone, Copy, Debug, PartialEq, Eq, Structural)]
pub enum MessageKind {
    UserMessage,
    SystemNotification,
}

/// One chat message. A value is complete before it is written to the wire.
#[derive(Clone, Debug, PartialEq, Eq)]
pub struct Message {
    pub username: String,
    pub content: String,
    pub timestamp: String,
    pub kind: MessageKind,
}

/// The mathematical value of a [`Message`].
pub struct MessageView {
    pub username: Seq<char>,
    pub content: Seq<char>,
    pub timestamp: Seq<char>,
    pub kind: MessageKind,
}

impl View for Message {
    type V = MessageView;

    open spec fn view(&self) -> MessageView {
        MessageView {
            username: self.username@,
            content: self.content@,
            timestamp: self.timestamp@,
            kind: self.kind,
        }
    }
}

impl MessageView {
    /// A message names its author, and only a notice of the system may have
    /// no content.
    pub open spec fn well_formed(self) -> bool {
        &&& self.username.len() > 0
        &&& self.kind == MessageKind::UserMessage ==> self.content.len() > 0
    }
}

/// The content of the notice that announces a new session.
pub open spec fn joined_text() -> Seq<char> {
    "joined the chat"@
}

/// The content of the notice that announces a departure.
pub open spec fn left_text() -> Seq<char> {
    "left the chat"@
}

impl Message {
    /// Whether the message names its author and, if a user wrote it, says
    /// something.
    pub fn is_well_formed(&self) -> (ok: bool)
        ensures
            ok == self@.well_formed(),
    {
        if self.username.as_str().is_empty() {
            return false;
        }
        match self.kind {
            MessageKind::UserMessage => !self.content.as_str().is_empty(),
            MessageKind::SystemNotification => true,
        }
    }

    /// What `username` said at `timestamp`. There is no message without an
    /// author or without content.
    pub fn user(username: &str, content: &str, timestamp: &str) -> (made: Option<Message>)
        ensures
            made is Some <==> username@.len() > 0 && content@.len() > 0,
            made matches Some(m) ==> m@ == (MessageView {
                username: username@,
                content: content@,
                timestamp: timestamp@,
                kind: MessageKind::UserMessage,
            }),
    {
        if username.is_empty() || content.is_empty() {
            return None;
        }
        Some(
            Message {
                username: username.to_owned(),
                content: content.to_owned(),
                timestamp: timestamp.to_owned(),
                kind: MessageKind::UserMessage,
            },
        )
    }

    /// A notice of the system about `username`. Its content may be empty.
    pub fn system(username: &str, content: &str, timestamp: &str) -> (made: Option<Message>)
        ensures
            made is Some <==> username@.len() > 0,
            made matches Some(m) ==> m@ == (MessageView {
                username: username@,
                content: content@,
                timestamp: timestamp@,
                kind: MessageKind::SystemNotification,
            }),
    {
        if username.is_empty() {
            return None;
        }
        Some(
            Message {
                username: username.to_owned(),
                content: content.to_owned(),
                timestamp: timestamp.to_owned(),
                kind: MessageKind::SystemNotification,
            },
        )
    }

    /// The notice that `username` has joined.
    pub fn joined(username: &str, timestamp: &str) -> (made: Option<Message>)
        ensures
            made is Some <==> username@.len() > 0,
            made matches Some(m) ==> m@ == (MessageView {
                username: username@,
                content: joined_text(),
                timestamp: timestamp@,
                kind: MessageKind::SystemNotification,
            }),
    {
        Message::system(username, "joined the chat", timestamp)
    }

    /// The notice that `username` has left.
    pub fn left(username: &str, timestamp: &str) -> (made: Option<Message>)
        ensures
            made is Some <==> username@.len() > 0,
            made matches Some(m) ==> m@ == (MessageView {
                username: username@,
                content: left_text(),
                timestamp: timestamp@,
                kind: MessageKind::SystemNotification,
            }),
    {
        Message::system(username, "left the chat", timestamp)
    }
}

} // verus!
