//! How the program is started: as the server, or as the client of a user.

use vstd::prelude::*;
use crate::text::{same_text, trim, trim_spec};

verus! {

/// How many messages the server's hub is asked to retain.
pub const BACKLOG: usize = 100;

/// The port on which the server listens, on the loopback address.
pub const PORT: u16 = 8082;

/// What the arguments ask for.
#[derive(Clone, Debug, PartialEq, Eq)]
pub enum Launch {
    /// Run the server.
    Serve,
    /// Run the client of this user.
    Join(String),
    /// Neither: no user is named.
    Refused,
}

/// The mathematical value of a [`Launch`].
pub enum LaunchView {
    Serve,
    Join(Seq<char>),
    Refused,
}

impl View for Launch {
    type V = LaunchView;

    open spec fn view(&self) -> LaunchView {
        match self {
            Launch::Serve => LaunchView::Serve,
            Launch::Join(name) => LaunchView::Join(name@),
            Launch::Refused => LaunchView::Refused,
        }
    }
}

/// What the arguments `args` ask for, the first of them being the name of
/// the program: `--serve` asks for the server, any other first argument
/// names the user of a client. A name that is lacking, empty or all white
/// space is refused.
pub open spec fn launch_spec(args: Seq<Seq<char>>) -> LaunchView {
    if args.len() < 2 {
        LaunchView::Refused
    } else if args[1] == "--serve"@ {
        LaunchView::Serve
    } else if trim_spec(args[1]).len() > 0 {
        LaunchView::Join(args[1])
    } else {
        LaunchView::Refused
    }
}

/// The texts of `args`.
pub open spec fn texts(args: Seq<String>) -> Seq<Seq<char>> {
    args.map_values(|a: String| a@)
}

/// What the arguments `args` ask for.
pub fn launch(args: &Vec<String>) -> (asked: Launch)
    ensures
        asked@ == launch_spec(texts(args@)),
{
    if args.len() < 2 {
        return Launch::Refused;
    }
    let first = args[1].as_str();
    if same_text(first, "--serve") {
        Launch::Serve
    } else if !trim(first).as_str().is_empty() {
        Launch::Join(args[1].clone())
    } else {
        Launch::Refused
    }
}

} // verus!
