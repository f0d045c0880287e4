//! The command line of the overlay binary, and the actions it accepts over
//! D-Bus activation.

use vstd::prelude::*;
use crate::text::{chars_of, eq_lit};

verus! {

/// Parsed command line: an optional sub-command (`toggle` when absent).
#[derive(Debug, Clone, Copy, PartialEq, Eq)]
pub struct Args {
    pub cmd: Option<Cmd>,
}

/// Sub-commands of the overlay binary.
#[derive(Debug, Clone, Copy, PartialEq, Eq)]
pub enum Cmd {
    /// Show the cheatsheet, or hide it if it is already visible (default)
    Toggle,
    /// Show the cheatsheet
    Show,
    /// Hide the cheatsheet
    Hide,
    /// Open the settings window
    Settings,
    /// Write the configured shortcut into the compositor config and exit
    Register {
        /// Replace whatever is currently bound to the combination
        force: bool,
    },
    /// Remove the shortcut from the compositor config and exit
    Unregister,
}

/// The word that names a sub-command on the command line.
pub open spec fn cmd_word(c: Cmd) -> Seq<char> {
    match c {
        Cmd::Toggle => "toggle"@,
        Cmd::Show => "show"@,
        Cmd::Hide => "hide"@,
        Cmd::Settings => "settings"@,
        Cmd::Register { .. } => "register"@,
        Cmd::Unregister => "unregister"@,
    }
}

impl Cmd {
    /// The word that names this sub-command.
    pub fn as_str(self) -> (s: &'static str)
        ensures
            s@ == cmd_word(self),
    {
        match self {
            Cmd::Toggle => "toggle",
            Cmd::Show => "show",
            Cmd::Hide => "hide",
            Cmd::Settings => "settings",
            Cmd::Register { .. } => "register",
            Cmd::Unregister => "unregister",
        }
    }
}

/// The sub-command named by a word; `register` is read without `--force`.
pub open spec fn cmd_named(s: Seq<char>) -> Option<Cmd> {
    if s == "toggle"@ {
        Some(Cmd::Toggle)
    } else if s == "show"@ {
        Some(Cmd::Show)
    } else if s == "hide"@ {
        Some(Cmd::Hide)
    } else if s == "settings"@ {
        Some(Cmd::Settings)
    } else if s == "register"@ {
        Some(Cmd::Register { force: false })
    } else if s == "unregister"@ {
        Some(Cmd::Unregister)
    } else {
        None
    }
}

impl Cmd {
    /// The sub-command named by `s` (as D-Bus activation actions name them).
    pub fn parse(s: &str) -> (r: Result<Cmd, ()>)
        ensures
            match r {
                Ok(c) => cmd_named(s@) == Some(c),
                Err(()) => cmd_named(s@).is_none(),
            },
    {
        let v = chars_of(s);
        if eq_lit(&v, "toggle") {
            Ok(Cmd::Toggle)
        } else if eq_lit(&v, "show") {
            Ok(Cmd::Show)
        } else if eq_lit(&v, "hide") {
            Ok(Cmd::Hide)
        } else if eq_lit(&v, "settings") {
            Ok(Cmd::Settings)
        } else if eq_lit(&v, "register") {
            Ok(Cmd::Register { force: false })
        } else if eq_lit(&v, "unregister") {
            Ok(Cmd::Unregister)
        } else {
            Err(())
        }
    }
}

/// Reading the word of a sub-command gives it back (`register` without
/// `--force`), and a word that is read is the word of what it reads to.
pub proof fn law_cmd_word_round_trip(c: Cmd, s: Seq<char>)
    ensures
        cmd_named(cmd_word(c)) == Some(match c {
            Cmd::Register { .. } => Cmd::Register { force: false },
            _ => c,
        }),
        cmd_named(s) matches Some(d) ==> cmd_word(d) == s,
{
    reveal_strlit("toggle");
    reveal_strlit("show");
    reveal_strlit("hide");
    reveal_strlit("settings");
    reveal_strlit("register");
    reveal_strlit("unregister");
    assert("toggle"@.len() == 6 && "show"@.len() == 4 && "hide"@.len() == 4 && "settings"@.len() == 8
        && "register"@.len() == 8 && "unregister"@.len() == 10);
    assert("show"@[0] != "hide"@[0]);
    assert("settings"@[0] != "register"@[0]);
    match c {
        Cmd::Toggle => {},
        Cmd::Show => {
            assert("show"@ != "toggle"@);
        },
        Cmd::Hide => {
            assert("hide"@ != "toggle"@);
            assert("hide"@ != "show"@);
        },
        Cmd::Settings => {
            assert("settings"@ != "toggle"@);
            assert("settings"@ != "show"@);
            assert("settings"@ != "hide"@);
        },
        Cmd::Register { .. } => {
            assert("register"@ != "toggle"@);
            assert("register"@ != "show"@);
            assert("register"@ != "hide"@);
            assert("register"@ != "settings"@);
        },
        Cmd::Unregister => {
            assert("unregister"@ != "toggle"@);
            assert("unregister"@ != "show"@);
            assert("unregister"@ != "hide"@);
            assert("unregister"@ != "settings"@);
            assert("unregister"@ != "register"@);
        },
    }
}

impl std::str::FromStr for Cmd {
    type Err = ();

    fn from_str(s: &str) -> (r: Result<Self, Self::Err>)
        ensures
            match r {
                Ok(c) => cmd_named(s@) == Some(c),
                Err(()) => cmd_named(s@).is_none(),
            },
    {
        Cmd::parse(s)
    }
}

/// What `register` prints when the combination is bound to another action.
pub open spec fn conflict_message_text(binding: Seq<char>, label: Seq<char>) -> Seq<char> {
    binding + " is already bound to \""@ + label + "\"; use --force to replace it"@
}

/// The message of `register` for a combination (shown as `binding`) that is
/// bound to the action labelled `label`.
pub fn conflict_message(binding: &str, label: &str) -> (m: String)
    ensures
        m@ == conflict_message_text(binding@, label@),
{
    let mut m = String::from_str(binding);
    m.append(" is already bound to \"");
    m.append(label);
    m.append("\"; use --force to replace it");
    proof {
        reveal_strlit(" is already bound to \"");
        reveal_strlit("\"; use --force to replace it");
    }
    m
}

/// What `register` prints once the combination is written.
pub open spec fn registered_message_text(binding: Seq<char>, command: Seq<char>) -> Seq<char> {
    "registered "@ + binding + " -> "@ + command
}

/// The message of `register` once the combination (shown as `binding`) is
/// bound to `command`.
pub fn registered_message(binding: &str, command: &str) -> (m: String)
    ensures
        m@ == registered_message_text(binding@, command@),
{
    let mut m = String::from_str("registered ");
    m.append(binding);
    m.append(" -> ");
    m.append(command);
    proof {
        reveal_strlit("registered ");
        reveal_strlit(" -> ");
    }
    m
}

} // verus!
