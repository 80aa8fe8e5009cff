//! The client between its three activities: the lines that arrive, the
//! lines the user submits, and the end of the session. The transcript is
//! changed in one place only, here.

use vstd::prelude::*;
use crate::input::{classify, classify_spec, frame, frame_spec, help_spec, help_text, Command, Submission};
use crate::render::{render, render_spec};
use crate::text::{trim, trim_spec};
use crate::wire::{decode, decode_spec};

verus! {

/// The state of a client.
pub struct ClientView {
    /// What the transcript shows.
    pub transcript: Seq<char>,
    /// Whether the session goes on.
    pub running: bool,
    /// Whether the server can still be reached.
    pub connected: bool,
}

/// What the transcript says when the server is lost.
pub open spec fn lost_spec() -> Seq<char> {
    "\n[connection lost]\n"@
}

impl ClientView {
    /// The client after the user has submitted the line `text`.
    pub open spec fn after_submit(self, text: Seq<char>) -> ClientView {
        if !self.running {
            self
        } else {
            match classify_spec(text) {
                Submission::Local(Command::Help) => ClientView {
                    transcript: self.transcript + help_spec(),
                    ..self
                },
                Submission::Local(Command::Clear) => ClientView {
                    transcript: Seq::empty(),
                    ..self
                },
                Submission::Local(Command::Quit) => ClientView { running: false, ..self },
                _ => self,
            }
        }
    }

    /// What goes to the network when the user submits the line `text`:
    /// the frame of a line of chat, and nothing for any other line.
    pub open spec fn outbound(self, text: Seq<char>) -> Option<Seq<char>> {
        if self.running && self.connected && classify_spec(text) == Submission::Chat {
            Some(frame_spec(text))
        } else {
            None
        }
    }

    /// Whether the input line is emptied when the user submits `text`.
    pub open spec fn empties_input(self, text: Seq<char>) -> bool {
        self.running && classify_spec(text) != Submission::Nothing && classify_spec(text)
            != Submission::Local(Command::Quit)
    }

    /// The client after the line `line` has arrived: a line that carries a
    /// message shows it, any other line is dropped.
    pub open spec fn after_line(self, line: Seq<char>) -> ClientView {
        if self.running && decode_spec(line) is Some {
            ClientView {
                transcript: self.transcript + render_spec(decode_spec(line).unwrap()),
                ..self
            }
        } else {
            self
        }
    }

    /// The client after the server was lost.
    pub open spec fn after_loss(self) -> ClientView {
        if self.running && self.connected {
            ClientView { transcript: self.transcript + lost_spec(), connected: false, ..self }
        } else {
            ClientView { connected: false, ..self }
        }
    }
}

/// What the client does with a submitted line besides changing itself.
#[derive(Clone, Debug, PartialEq, Eq)]
pub struct Submitted {
    /// The frame to write to the server, if there is one.
    pub frame: Option<String>,
    /// Whether the input line is to be emptied.
    pub empties_input: bool,
}

/// The client of one session.
pub struct Client {
    transcript: String,
    running: bool,
    connected: bool,
}

impl View for Client {
    type V = ClientView;

    closed spec fn view(&self) -> ClientView {
        ClientView {
            transcript: self.transcript@,
            running: self.running,
            connected: self.connected,
        }
    }
}

/// The first frame of a session: the user's name as a line. There is none
/// for a name that is empty or all white space.
pub fn handshake(username: &str) -> (first: Option<String>)
    ensures
        first is Some <==> trim_spec(username@).len() > 0,
        first matches Some(f) ==> f@ == frame_spec(username@),
{
    let name = trim(username);
    if name.as_str().is_empty() {
        None
    } else {
        Some(frame(username))
    }
}

impl Client {
    /// A client that is connected, with an empty transcript.
    pub fn new() -> (client: Client)
        ensures
            client@ == (ClientView { transcript: Seq::empty(), running: true, connected: true }),
    {
        Client { transcript: String::new(), running: true, connected: true }
    }

    /// What the transcript shows.
    pub fn transcript(&self) -> (shown: &str)
        ensures
            shown@ == self@.transcript,
    {
        self.transcript.as_str()
    }

    /// Whether the session goes on.
    pub fn is_running(&self) -> (running: bool)
        ensures
            running == self@.running,
    {
        self.running
    }

    /// Whether the server can still be reached.
    pub fn is_connected(&self) -> (connected: bool)
        ensures
            connected == self@.connected,
    {
        self.connected
    }

    /// The user has submitted the line `text`. A command is carried out
    /// here and now; a line of chat is handed back as a frame to write.
    pub fn send_message(&mut self, text: &str) -> (done: Submitted)
        ensures
            final(self)@ == old(self)@.after_submit(text@),
            match done.frame {
                Some(f) => old(self)@.outbound(text@) == Some(f@),
                None => old(self)@.outbound(text@) is None,
            },
            done.empties_input == old(self)@.empties_input(text@),
    {
        if !self.running {
            return Submitted { frame: None, empties_input: false };
        }
        match classify(text) {
            Submission::Nothing => Submitted { frame: None, empties_input: false },
            Submission::Local(Command::Help) => {
                let shown = help_text();
                self.transcript.append(shown.as_str());
                Submitted { frame: None, empties_input: true }
            },
            Submission::Local(Command::Clear) => {
                self.transcript = String::new();
                Submitted { frame: None, empties_input: true }
            },
            Submission::Local(Command::Quit) => {
                self.running = false;
                Submitted { frame: None, empties_input: false }
            },
            Submission::Chat => {
                if self.connected {
                    Submitted { frame: Some(frame(text)), empties_input: true }
                } else {
                    Submitted { frame: None, empties_input: true }
                }
            },
        }
    }

    /// The line `line` has arrived, given without its end. Says whether it
    /// was shown.
    pub fn receive_line(&mut self, line: &str) -> (shown: bool)
        ensures
            final(self)@ == old(self)@.after_line(line@),
            shown == (old(self)@.running && decode_spec(line@) is Some),
    {
        if !self.running {
            return false;
        }
        match decode(line) {
            Some(message) => {
                let text = render(&message);
                self.transcript.append(text.as_str());
                true
            },
            None => false,
        }
    }

    /// The server was lost. The transcript says so, once; the commands of
    /// the client go on working.
    pub fn connection_lost(&mut self)
        ensures
            final(self)@ == old(self)@.after_loss(),
    {
        if self.running && self.connected {
            self.transcript.append("\n[connection lost]\n");
        }
        self.connected = false;
    }

    /// The user has pressed Escape: the session ends.
    pub fn escape(&mut self)
        ensures
            final(self)@ == (ClientView { running: false, ..old(self)@ }),
    {
        self.running = false;
    }
}

/// The commands of the client stay with the client: `/clear` empties the
/// transcript, `/quit` ends the session, and neither they nor `/help` nor
/// an empty line send anything. Any other line goes out as it stands,
/// whether or not it begins with a slash, and changes nothing here.
pub proof fn lemma_commands_stay_local(c: ClientView, text: Seq<char>)
    requires
        c.running,
        c.connected,
    ensures
        text == "/clear"@ ==> c.after_submit(text).transcript.len() == 0 && c.outbound(text)
            is None,
        text == "/quit"@ ==> !c.after_submit(text).running && c.outbound(text) is None,
        text == "/help"@ ==> c.after_submit(text).transcript == c.transcript + help_spec()
            && c.outbound(text) is None,
        text.len() == 0 ==> c.after_submit(text) == c && c.outbound(text) is None,
        text.len() > 0 && text != "/help"@ && text != "/clear"@ && text != "/quit"@
            ==> c.after_submit(text) == c && c.outbound(text) == Some(text.push('\n')),
{
    reveal_strlit("/help");
    reveal_strlit("/clear");
    reveal_strlit("/quit");
    assert("/help"@.len() == 5 && "/help"@[1] == 'h');
    assert("/quit"@.len() == 5 && "/quit"@[1] == 'q');
    assert("/clear"@.len() == 6);
}

} // verus!
