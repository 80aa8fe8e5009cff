//! How a message stands in the transcript.

use vstd::prelude::*;
use crate::message::{Message, MessageKind, MessageView};

verus! {

/// The lines that show `m`: what a user said stands under its time, with
/// its author; a notice of the system stands in brackets.
pub open spec fn render_spec(m: MessageView) -> Seq<char> {
    match m.kind {
        MessageKind::UserMessage => "┌─["@ + m.timestamp + "]\n└─ "@ + m.username + " : "@
            + m.content + "\n"@,
        MessageKind::SystemNotification => "\n["@ + m.username + " "@ + m.content + "]\n"@,
    }
}

/// The lines that show `m` in the transcript.
pub fn render(m: &Message) -> (shown: String)
    ensures
        shown@ == render_spec(m@),
{
    let mut out = String::new();
    match m.kind {
        MessageKind::UserMessage => {
            out.append("┌─[");
            out.append(m.timestamp.as_str());
            out.append("]\n└─ ");
            out.append(m.username.as_str());
            out.append(" : ");
            out.append(m.content.as_str());
            out.append("\n");
        },
        MessageKind::SystemNotification => {
            out.append("\n[");
            out.append(m.username.as_str());
            out.append(" ");
            out.append(m.content.as_str());
            out.append("]\n");
        },
    }
    assert(out@ =~= render_spec(m@));
    out
}

} // verus!
