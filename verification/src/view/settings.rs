//! Settings page: choose the global key combination.

use vstd::prelude::*;
use crate::config::CheatsheetConfig;
use crate::shortcuts::binding::{Binding, KeyNames};
use crate::shortcuts::keys::{chip_texts, display, joined};

verus! {

/// Messages emitted by the settings page.
#[derive(Debug, Clone, PartialEq, Eq)]
pub enum Message {
    StartRecording,
    CancelRecording,
    TextChanged(String),
    ApplyText,
    ReplaceConfirm,
    ReplaceCancel,
    Remove,
    ToggleResident(bool),
}

/// Outcome shown on the settings page.
#[derive(Debug, Clone, PartialEq, Eq)]
pub enum Status {
    Success(String),
    Error(String),
}

/// The mathematical value of a [`Status`].
pub enum StatusView {
    Success(Seq<char>),
    Error(Seq<char>),
}

impl View for Status {
    type V = StatusView;

    open spec fn view(&self) -> StatusView {
        match self {
            Status::Success(s) => StatusView::Success(s@),
            Status::Error(s) => StatusView::Error(s@),
        }
    }
}

/// The view of an optional status.
pub open spec fn opt_status(s: Option<Status>) -> Option<StatusView> {
    match s {
        Some(x) => Some(x@),
        None => None,
    }
}

impl Status {
    /// A copy of this status.
    pub fn duplicate(&self) -> (r: Status)
        ensures
            r@ == self@,
    {
        match self {
            Status::Success(s) => Status::Success(s.clone()),
            Status::Error(s) => Status::Error(s.clone()),
        }
    }
}

/// Transient UI state of the settings page.
#[derive(Debug)]
pub struct State {
    pub recording: bool,
    /// Modifiers currently held while recording (for live feedback).
    pub pending: Option<Binding>,
    pub text: String,
    pub status: Option<Status>,
    /// A binding that conflicts with an existing shortcut, waiting for the
    /// user to confirm replacement. Holds (binding, label of the old action).
    pub replace: Option<(Binding, String)>,
}

impl State {
    /// Not recording, nothing typed, no status, nothing to confirm.
    pub fn new() -> (s: State)
        ensures
            !s.recording,
            s.pending.is_none(),
            s.text@ == Seq::<char>::empty(),
            s.status.is_none(),
            s.replace.is_none(),
    {
        State { recording: false, pending: None, text: String::new(), status: None, replace: None }
    }
}

/// The text shown in place of the combination when none is registered.
pub open spec fn not_registered_text() -> Seq<char> {
    "Not registered"@
}

/// The text shown while recording before any modifier is held.
pub open spec fn nothing_held_text() -> Seq<char> {
    "…"@
}

/// The question asked before replacing the action bound to a combination.
pub open spec fn replace_text(binding: Seq<char>, action: Seq<char>) -> Seq<char> {
    binding + " is already used by “"@ + action + "”. Replace it?"@
}

/// What the settings page shows.
pub struct Page {
    /// The registered combination, or a note that none is registered.
    pub current: String,
    /// Whether a recording is in progress (the record button then cancels it).
    pub recording: bool,
    /// While recording, the modifiers held so far.
    pub recording_hint: Option<String>,
    /// Whether the remove button can be pressed.
    pub can_remove: bool,
    /// The question shown while a conflicting combination waits for
    /// confirmation.
    pub replace_prompt: Option<String>,
    /// The outcome of the last change.
    pub status: Option<Status>,
    /// The state of the "stay resident" toggle.
    pub resident: bool,
}

/// The view of an optional string.
pub open spec fn opt_chars(s: Option<String>) -> Option<Seq<char>> {
    match s {
        Some(t) => Some(t@),
        None => None,
    }
}

/// The settings page for the given state and configuration; `registered`
/// says whether our entry is currently in the compositor's shortcuts.
pub fn page(state: &State, config: &CheatsheetConfig, registered: bool, names: &KeyNames) -> (p: Page)
    requires
        names.wf(),
    ensures
        p.current@ == if registered {
            joined(chip_texts(config.binding@, names@), " + "@)
        } else {
            not_registered_text()
        },
        p.recording == state.recording,
        opt_chars(p.recording_hint) == if state.recording {
            Some(
                match state.pending {
                    Some(b) => if joined(chip_texts(b@, names@), " + "@).len() > 0 {
                        joined(chip_texts(b@, names@), " + "@)
                    } else {
                        nothing_held_text()
                    },
                    None => nothing_held_text(),
                },
            )
        } else {
            None::<Seq<char>>
        },
        p.can_remove == registered,
        opt_chars(p.replace_prompt) == match state.replace {
            Some((b, action)) => Some(replace_text(joined(chip_texts(b@, names@), " + "@), action@)),
            None => None::<Seq<char>>,
        },
        opt_status(p.status) == opt_status(state.status),
        p.resident == config.resident,
{
    let current = if registered {
        display(&config.binding, names)
    } else {
        String::from_str("Not registered")
    };
    let recording_hint = if state.recording {
        let shown = match &state.pending {
            Some(b) => {
                let d = display(b, names);
                if !d.as_str().is_empty() {
                    d
                } else {
                    String::from_str("…")
                }
            },
            None => String::from_str("…"),
        };
        Some(shown)
    } else {
        None
    };
    let replace_prompt = match &state.replace {
        Some((b, action)) => {
            let mut q = display(b, names);
            q.append(" is already used by “");
            q.append(action.as_str());
            q.append("”. Replace it?");
            Some(q)
        },
        None => None,
    };
    let status = match &state.status {
        Some(s) => Some(s.duplicate()),
        None => None,
    };
    proof {
        reveal_strlit("Not registered");
        reveal_strlit("…");
    }
    Page {
        current,
        recording: state.recording,
        recording_hint,
        can_remove: registered,
        replace_prompt,
        status,
        resident: config.resident,
    }
}

} // verus!
