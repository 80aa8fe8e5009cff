//! What a line means that the user has submitted.

use vstd::prelude::*;
use crate::text::same_text;

verus! {

/// A command that the client carries out itself.
#[derive(Clone, Copy, Debug, PartialEq, Eq, Structural)]
pub enum Command {
    Help,
    Clear,
    Quit,
}

/// What a submitted line is.
#[derive(Clone, Copy, Debug, PartialEq, Eq, Structural)]
pub enum Submission {
    /// An empty line: nothing happens.
    Nothing,
    /// A command of the client: it never reaches the network.
    Local(Command),
    /// Anything else: it is sent as it stands.
    Chat,
}

/// What the line `text` is. Only the three commands are commands: any
/// other line, one that begins with a slash too, is chat.
pub open spec fn classify_spec(text: Seq<char>) -> Submission {
    if text.len() == 0 {
        Submission::Nothing
    } else if text == "/help"@ {
        Submission::Local(Command::Help)
    } else if text == "/clear"@ {
        Submission::Local(Command::Clear)
    } else if text == "/quit"@ {
        Submission::Local(Command::Quit)
    } else {
        Submission::Chat
    }
}

/// What the line `text` is.
pub fn classify(text: &str) -> (kind: Submission)
    ensures
        kind == classify_spec(text@),
{
    if text.is_empty() {
        Submission::Nothing
    } else if same_text(text, "/help") {
        Submission::Local(Command::Help)
    } else if same_text(text, "/clear") {
        Submission::Local(Command::Clear)
    } else if same_text(text, "/quit") {
        Submission::Local(Command::Quit)
    } else {
        Submission::Chat
    }
}

/// What `/help` shows.
pub open spec fn help_spec() -> Seq<char> {
    "\n=== Commands ===\n/help - Show this help\n/clear - Clear messages\n/quit - Exit chat\n\n"@
}

/// What `/help` shows.
pub fn help_text() -> (shown: String)
    ensures
        shown@ == help_spec(),
{
    "\n=== Commands ===\n/help - Show this help\n/clear - Clear messages\n/quit - Exit chat\n\n".to_owned()
}

/// The frame that carries the line `text`: the line and a line's end.
pub open spec fn frame_spec(text: Seq<char>) -> Seq<char> {
    text.push('\n')
}

/// The frame that carries the line `text`.
pub fn frame(text: &str) -> (framed: String)
    ensures
        framed@ == frame_spec(text@),
{
    let mut out = text.to_owned();
    out.push('\n');
    out
}

} // verus!
