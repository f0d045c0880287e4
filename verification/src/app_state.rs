//! The decisions of the overlay and settings application: what each event
//! does to the application's state and what it asks the windowing system,
//! the compositor's shortcuts and the shell to do.
//!
//! The application runs the loop: it turns toolkit events into calls here,
//! performs the returned effects in order, and reports back the outcome of
//! the effects that can fail or that produce a value.

use vstd::prelude::*;
use crate::cli::{Cmd, cmd_named};
use crate::config::{CheatsheetConfig, Startup, startup_of, trim_chars, trimmed};
use crate::keycapture::{
    Key, KeyboardModifiers, NamedKey, binding_from_key, invalid_reason, is_modifier_key, modifier_key,
    modifiers, modifiers_of, validate,
};
use crate::registration::{Sync, conflict, conflict_of, is_registered, registered_in};
use crate::shortcuts::action::ActionView;
use crate::shortcuts::binding::{Binding, BindingView, KeyNames, Shortcuts, binding_key, row_of};
use crate::shortcuts::keys::{chip_texts, display, joined};
use crate::shortcuts::localize::{action_label, action_label_text};
use crate::shortcuts::search::{enter_target_of, search_of};
use crate::shortcuts::CheatsheetModel;
use crate::view::cheatsheet::Message as OverlayMessage;
use crate::text::{chars_of, string_of};
use crate::view::settings::{Message as SettingsMessage, State, Status, StatusView, opt_status};

verus! {

/// How the application was started.
#[derive(Debug, Clone, Copy, PartialEq, Eq, Structural)]
pub enum Mode {
    /// No main window; the overlay is a layer surface, settings open in an
    /// extra window.
    Overlay,
    /// Started with `settings`: the main window is the settings page.
    Settings,
}

/// The mode a command line starts the application in.
pub open spec fn mode_for(cmd: Option<Cmd>) -> Mode {
    if cmd == Some(Cmd::Settings) {
        Mode::Settings
    } else {
        Mode::Overlay
    }
}

/// Focus changes of the overlay's layer surface.
#[derive(Debug, Clone, Copy, PartialEq, Eq, Structural)]
pub enum LayerEvent {
    Focused,
    Unfocused,
    Other,
}

/// What the application asks of the outside world, in order.
#[derive(Debug)]
pub enum Effect {
    /// Create the overlay's layer surface.
    OpenOverlay,
    /// Destroy the overlay's layer surface.
    CloseOverlay,
    /// Exit shortly, once pending requests reached the compositor; the
    /// application then reports [`AppState::exit_requested`].
    ExitSoon,
    /// Exit now.
    Exit,
    /// Focus the overlay's search box.
    FocusSearch,
    /// Ask the compositor to stop (or resume) handling its shortcuts, so a
    /// combination can be recorded.
    InhibitShortcuts(bool),
    /// Open the settings window; the application reports its id with
    /// [`AppState::settings_opened`].
    OpenSettingsWindow,
    /// Give focus to a window.
    FocusWindow(u64),
    /// Close a window.
    CloseWindow(u64),
    /// Put the settings title on the main window.
    ShowSettingsTitle,
    /// Run a shell command the way the compositor runs `Spawn` bindings.
    Run(String),
    /// Persist the app configuration; on failure the application reports
    /// [`AppState::write_failed`].
    SaveConfig,
    /// Re-read the compositor's shortcuts and rebuild the cheatsheet.
    ReloadShortcuts,
    /// Read the typed combination; the application reports the binding with
    /// [`AppState::apply_binding`] or the reason with
    /// [`AppState::invalid_binding`].
    ReadText(String),
    /// Write the binding into the custom shortcuts; the application reports
    /// [`AppState::registered`] or [`AppState::write_failed`].
    Register(Binding),
    /// Remove our entry from the custom shortcuts; the application reports
    /// [`AppState::unregistered`] or [`AppState::write_failed`].
    Unregister,
}

/// The mathematical value of an [`Effect`].
pub enum EffectView {
    OpenOverlay,
    CloseOverlay,
    ExitSoon,
    Exit,
    FocusSearch,
    InhibitShortcuts(bool),
    OpenSettingsWindow,
    FocusWindow(u64),
    CloseWindow(u64),
    ShowSettingsTitle,
    Run(Seq<char>),
    SaveConfig,
    ReloadShortcuts,
    ReadText(Seq<char>),
    Register(BindingView),
    Unregister,
}

impl View for Effect {
    type V = EffectView;

    open spec fn view(&self) -> EffectView {
        match self {
            Effect::OpenOverlay => EffectView::OpenOverlay,
            Effect::CloseOverlay => EffectView::CloseOverlay,
            Effect::ExitSoon => EffectView::ExitSoon,
            Effect::Exit => EffectView::Exit,
            Effect::FocusSearch => EffectView::FocusSearch,
            Effect::InhibitShortcuts(b) => EffectView::InhibitShortcuts(*b),
            Effect::OpenSettingsWindow => EffectView::OpenSettingsWindow,
            Effect::FocusWindow(id) => EffectView::FocusWindow(*id),
            Effect::CloseWindow(id) => EffectView::CloseWindow(*id),
            Effect::ShowSettingsTitle => EffectView::ShowSettingsTitle,
            Effect::Run(c) => EffectView::Run(c@),
            Effect::SaveConfig => EffectView::SaveConfig,
            Effect::ReloadShortcuts => EffectView::ReloadShortcuts,
            Effect::ReadText(t) => EffectView::ReadText(t@),
            Effect::Register(b) => EffectView::Register(b@),
            Effect::Unregister => EffectView::Unregister,
        }
    }
}

/// The views of a list of effects.
pub open spec fn effects(v: Seq<Effect>) -> Seq<EffectView> {
    v.map_values(|e: Effect| e@)
}

/// The state of the application.
pub struct AppState {
    pub mode: Mode,
    pub config: CheatsheetConfig,
    /// Id of the overlay's layer surface.
    pub overlay_id: u64,
    pub overlay_visible: bool,
    /// Id of the settings window, while one is open (overlay mode).
    pub settings_window: Option<u64>,
    /// The text in the overlay's search box.
    pub query: String,
    pub settings: State,
}

/// Whether an application in `mode` with this configuration, overlay and
/// settings window has nothing to do and may exit: in overlay mode, not
/// resident, with neither the overlay nor a settings window shown.
pub open spec fn idle(s: AppState) -> bool {
    &&& s.mode == Mode::Overlay
    &&& !s.config.resident
    &&& !s.overlay_visible
    &&& s.settings_window.is_none()
}

/// Whether every exit among the effects is allowed by the state: the
/// application only ever exits when it is idle.
pub open spec fn exits_only_when_idle(e: Seq<EffectView>, s: AppState) -> bool {
    forall|i: int| 0 <= i < e.len() && (e[i] is ExitSoon || e[i] is Exit) ==> idle(s)
}

/// The effects of closing the overlay: destroy its surface, then exit when
/// nothing else is left.
pub open spec fn close_effects(s: AppState) -> Seq<EffectView> {
    if idle(s) {
        seq![EffectView::CloseOverlay, EffectView::ExitSoon]
    } else {
        seq![EffectView::CloseOverlay]
    }
}

/// The state with the overlay hidden.
pub open spec fn hidden(s: AppState) -> AppState {
    AppState { overlay_visible: false, ..s }
}

/// The effects of hiding the overlay of `s`: none when it is hidden
/// already.
pub open spec fn hide_effects(s: AppState) -> Seq<EffectView> {
    if s.overlay_visible {
        close_effects(hidden(s))
    } else {
        Seq::<EffectView>::empty()
    }
}

/// The effects of opening the settings from `s`.
pub open spec fn settings_effects(s: AppState) -> Seq<EffectView> {
    match s.mode {
        Mode::Settings => Seq::<EffectView>::empty(),
        Mode::Overlay => match s.settings_window {
            Some(id) => seq![EffectView::FocusWindow(id)],
            None => seq![EffectView::OpenSettingsWindow],
        },
    }
}

/// The state with the recording stopped.
pub open spec fn stopped(s: AppState) -> AppState {
    AppState { settings: State { recording: false, pending: None, ..s.settings }, ..s }
}

/// The message shown for a combination that cannot be used.
pub open spec fn invalid_text(why: Seq<char>) -> Seq<char> {
    "Invalid key combination: "@ + why
}

/// The message shown when a change could not be written.
pub open spec fn write_error_text(why: Seq<char>) -> Seq<char> {
    "Could not save the change: "@ + why
}

/// The message shown once a combination is registered.
pub open spec fn registered_text(binding: Seq<char>) -> Seq<char> {
    "Shortcut set to "@ + binding
}

/// Whether `after` and `e` are what applying the binding `b` to `before`
/// gives, with the merged shortcut table `merged`: a combination that cannot
/// be used is reported; one bound to another action asks, unless `replace`,
/// whether to replace it (naming that action); any other is to be written.
pub open spec fn applied(
    before: AppState,
    after: AppState,
    b: BindingView,
    replace: bool,
    merged: Seq<(BindingView, ActionView)>,
    e: Seq<EffectView>,
) -> bool {
    match invalid_reason(b) {
        Some(why) => {
            &&& after == (AppState { settings: State { status: after.settings.status, ..before.settings }, ..before })
            &&& opt_status(after.settings.status) == Some(StatusView::Error(invalid_text(why)))
            &&& e == Seq::<EffectView>::empty()
        },
        None => if !replace && conflict_of(merged, b).is_some() {
            &&& after == (AppState { settings: State { replace: after.settings.replace, ..before.settings }, ..before })
            &&& after.settings.replace matches Some(p) && p.0@ == b && p.1@ == action_label_text(
                conflict_of(merged, b).unwrap(),
                row_of(merged, binding_key(b)).unwrap().0.description,
            )
            &&& e == Seq::<EffectView>::empty()
        } else {
            &&& after == (AppState { settings: State { replace: after.settings.replace, ..before.settings }, ..before })
            &&& after.settings.replace.is_none()
            &&& e == seq![EffectView::Register(b)]
        },
    }
}

impl AppState {
    /// The state of a fresh start with command `cmd`, configuration
    /// `config` and overlay surface id `overlay_id`: nothing shown, empty
    /// search, fresh settings page.
    pub fn new(cmd: Option<Cmd>, config: CheatsheetConfig, overlay_id: u64) -> (s: AppState)
        ensures
            s.mode == mode_for(cmd),
            s.config == config,
            s.overlay_id == overlay_id,
            !s.overlay_visible,
            s.settings_window.is_none(),
            s.query@ == Seq::<char>::empty(),
            !s.settings.recording,
            s.settings.pending.is_none(),
            s.settings.text@ == Seq::<char>::empty(),
            s.settings.status.is_none(),
            s.settings.replace.is_none(),
    {
        let mode = match cmd {
            Some(Cmd::Settings) => Mode::Settings,
            _ => Mode::Overlay,
        };
        AppState {
            mode,
            config,
            overlay_id,
            overlay_visible: false,
            settings_window: None,
            query: String::new(),
            settings: State::new(),
        }
    }

    /// Exit once nothing is shown, unless configured to stay resident.
    pub fn should_exit(&self) -> (r: bool)
        ensures
            r == idle(*self),
    {
        self.mode == Mode::Overlay && !self.config.resident && !self.overlay_visible
            && self.settings_window.is_none()
    }

    /// What the start does, right after [`AppState::new`]: in settings mode
    /// title the main window; asked to hide, exit (nothing is shown);
    /// otherwise show the overlay.
    pub fn start(&mut self, cmd: Option<Cmd>) -> (e: Vec<Effect>)
        requires
            old(self).mode == mode_for(cmd),
            !old(self).overlay_visible,
        ensures
            old(self).mode == Mode::Settings ==> *final(self) == *old(self) && effects(e@) == seq![EffectView::ShowSettingsTitle],
            old(self).mode == Mode::Overlay && cmd == Some(Cmd::Hide) ==> *final(self) == *old(self)
                && effects(e@) == seq![EffectView::ExitSoon],
            old(self).mode == Mode::Overlay && cmd != Some(Cmd::Hide) ==> final(self).overlay_visible
                && final(self).query@ == Seq::<char>::empty()
                && *final(self) == (AppState { overlay_visible: true, query: final(self).query, ..*old(self) })
                && effects(e@) == seq![EffectView::OpenOverlay],
    {
        match self.mode {
            Mode::Settings => {
                let e = vec![Effect::ShowSettingsTitle];
                assert(effects(e@) =~= seq![EffectView::ShowSettingsTitle]);
                e
            },
            Mode::Overlay => {
                if matches!(cmd, Some(Cmd::Hide)) {
                    let e = vec![Effect::ExitSoon];
                    assert(effects(e@) =~= seq![EffectView::ExitSoon]);
                    e
                } else {
                    self.show()
                }
            },
        }
    }

    /// Show the overlay. Every open starts from the full list, whichever way
    /// it was closed.
    pub fn show(&mut self) -> (e: Vec<Effect>)
        ensures
            old(self).overlay_visible ==> *final(self) == *old(self) && e@.len() == 0,
            !old(self).overlay_visible ==> final(self).query@ == Seq::<char>::empty()
                && *final(self) == (AppState { overlay_visible: true, query: final(self).query, ..*old(self) })
                && effects(e@) == seq![EffectView::OpenOverlay],
            final(self).overlay_visible,
            exits_only_when_idle(effects(e@), *final(self)),
    {
        if self.overlay_visible {
            return Vec::new();
        }
        self.overlay_visible = true;
        self.query = String::new();
        let e = vec![Effect::OpenOverlay];
        assert(effects(e@) =~= seq![EffectView::OpenOverlay]);
        e
    }

    /// Hide the overlay, and exit when nothing else is left.
    pub fn hide_overlay(&mut self) -> (e: Vec<Effect>)
        ensures
            !old(self).overlay_visible ==> *final(self) == *old(self) && e@.len() == 0,
            old(self).overlay_visible ==> *final(self) == (AppState { overlay_visible: false, ..*old(self) })
                && effects(e@) == close_effects(*final(self)),
            !final(self).overlay_visible,
            exits_only_when_idle(effects(e@), *final(self)),
    {
        if !self.overlay_visible {
            return Vec::new();
        }
        self.overlay_visible = false;
        if self.should_exit() {
            let e = vec![Effect::CloseOverlay, Effect::ExitSoon];
            assert(effects(e@) =~= seq![EffectView::CloseOverlay, EffectView::ExitSoon]);
            e
        } else {
            let e = vec![Effect::CloseOverlay];
            assert(effects(e@) =~= seq![EffectView::CloseOverlay]);
            e
        }
    }

    /// Hide the overlay without letting the process exit (a settings window
    /// is about to open).
    pub fn hide_keep_alive(&mut self) -> (e: Vec<Effect>)
        ensures
            !old(self).overlay_visible ==> *final(self) == *old(self) && e@.len() == 0,
            old(self).overlay_visible ==> *final(self) == (AppState { overlay_visible: false, ..*old(self) })
                && effects(e@) == seq![EffectView::CloseOverlay],
            !final(self).overlay_visible,
    {
        if !self.overlay_visible {
            return Vec::new();
        }
        self.overlay_visible = false;
        let e = vec![Effect::CloseOverlay];
        assert(effects(e@) =~= seq![EffectView::CloseOverlay]);
        e
    }

    /// Show the overlay when hidden, hide it when shown.
    pub fn toggle(&mut self) -> (e: Vec<Effect>)
        ensures
            old(self).overlay_visible ==> *final(self) == (AppState { overlay_visible: false, ..*old(self) })
                && effects(e@) == close_effects(*final(self)),
            !old(self).overlay_visible ==> final(self).query@ == Seq::<char>::empty()
                && *final(self) == (AppState { overlay_visible: true, query: final(self).query, ..*old(self) })
                && effects(e@) == seq![EffectView::OpenOverlay],
            final(self).overlay_visible == !old(self).overlay_visible,
            exits_only_when_idle(effects(e@), *final(self)),
    {
        if self.overlay_visible {
            self.hide_overlay()
        } else {
            self.show()
        }
    }

    /// Close a window.
    pub fn close_window(&self, id: u64) -> (e: Vec<Effect>)
        ensures
            effects(e@) == seq![EffectView::CloseWindow(id)],
    {
        let e = vec![Effect::CloseWindow(id)];
        assert(effects(e@) =~= seq![EffectView::CloseWindow(id)]);
        e
    }

    /// A window was closed: the settings window (a recording in progress
    /// stops), or the overlay by the compositor (for example when its output
    /// is gone). Exit when nothing is left.
    pub fn window_closed(&mut self, id: u64) -> (e: Vec<Effect>)
        ensures
            old(self).settings_window == Some(id) ==> {
                &&& final(self).settings_window.is_none()
                &&& final(self).mode == old(self).mode
                &&& final(self).config == old(self).config
                &&& final(self).overlay_visible == old(self).overlay_visible
                &&& final(self).query == old(self).query
                &&& !final(self).settings.recording
                &&& old(self).settings.recording ==> final(self).settings.pending.is_none()
                &&& !old(self).settings.recording ==> final(self).settings.pending == old(self).settings.pending
                &&& final(self).settings.text == old(self).settings.text
                &&& final(self).settings.status == old(self).settings.status
                &&& final(self).settings.replace == old(self).settings.replace
                &&& effects(e@) == (if old(self).settings.recording {
                    seq![EffectView::InhibitShortcuts(false)]
                } else {
                    Seq::<EffectView>::empty()
                }) + (if idle(*final(self)) {
                    seq![EffectView::ExitSoon]
                } else {
                    Seq::<EffectView>::empty()
                })
            },
            old(self).settings_window != Some(id) && id == old(self).overlay_id && old(self).overlay_visible
                ==> *final(self) == (AppState { overlay_visible: false, ..*old(self) })
                && effects(e@) == if idle(*final(self)) {
                    seq![EffectView::ExitSoon]
                } else {
                    Seq::<EffectView>::empty()
                },
            old(self).settings_window != Some(id) && !(id == old(self).overlay_id && old(self).overlay_visible)
                ==> *final(self) == *old(self) && e@.len() == 0,
            exits_only_when_idle(effects(e@), *final(self)),
    {
        if self.settings_window == Some(id) {
            self.settings_window = None;
            let mut e = if self.settings.recording {
                self.stop_recording()
            } else {
                Vec::new()
            };
            let ghost first = e@;
            if self.should_exit() {
                e.push(Effect::ExitSoon);
            }
            assert(effects(e@) =~= effects(first) + (if idle(*self) {
                seq![EffectView::ExitSoon]
            } else {
                Seq::<EffectView>::empty()
            }));
            return e;
        }
        if id == self.overlay_id && self.overlay_visible {
            self.overlay_visible = false;
            if self.should_exit() {
                let e = vec![Effect::ExitSoon];
                assert(effects(e@) =~= seq![EffectView::ExitSoon]);
                return e;
            }
        }
        let e = Vec::new();
        assert(effects(e@) =~= Seq::<EffectView>::empty());
        e
    }

    /// A focus change of a layer surface: losing focus hides the overlay,
    /// gaining it focuses the search box. Events of other surfaces, or of a
    /// hidden overlay, are ignored.
    pub fn layer_event(&mut self, event: LayerEvent, id: u64) -> (e: Vec<Effect>)
        ensures
            id != old(self).overlay_id || !old(self).overlay_visible || event == LayerEvent::Other
                ==> *final(self) == *old(self) && e@.len() == 0,
            id == old(self).overlay_id && old(self).overlay_visible && event == LayerEvent::Unfocused
                ==> *final(self) == (AppState { overlay_visible: false, ..*old(self) })
                && effects(e@) == close_effects(*final(self)),
            id == old(self).overlay_id && old(self).overlay_visible && event == LayerEvent::Focused
                ==> *final(self) == *old(self) && effects(e@) == seq![EffectView::FocusSearch],
            exits_only_when_idle(effects(e@), *final(self)),
    {
        if id != self.overlay_id || !self.overlay_visible {
            return Vec::new();
        }
        match event {
            LayerEvent::Unfocused => self.hide_overlay(),
            LayerEvent::Focused => {
                let e = vec![Effect::FocusSearch];
                assert(effects(e@) =~= seq![EffectView::FocusSearch]);
                e
            },
            LayerEvent::Other => Vec::new(),
        }
    }

    /// Escape pressed while the overlay has focus: clear the search when
    /// there is one, otherwise hide the overlay.
    pub fn overlay_escape(&mut self, id: u64) -> (e: Vec<Effect>)
        ensures
            id != old(self).overlay_id || !old(self).overlay_visible ==> *final(self) == *old(self) && e@.len() == 0,
            id == old(self).overlay_id && old(self).overlay_visible && old(self).query@.len() == 0
                ==> *final(self) == (AppState { overlay_visible: false, ..*old(self) })
                && effects(e@) == close_effects(*final(self)),
            id == old(self).overlay_id && old(self).overlay_visible && old(self).query@.len() > 0
                ==> final(self).query@ == Seq::<char>::empty()
                && *final(self) == (AppState { query: final(self).query, ..*old(self) })
                && effects(e@) == seq![EffectView::FocusSearch],
            exits_only_when_idle(effects(e@), *final(self)),
    {
        if id != self.overlay_id || !self.overlay_visible {
            return Vec::new();
        }
        if self.query.as_str().is_empty() {
            self.hide_overlay()
        } else {
            self.clear_search()
        }
    }

    /// Empty the search box and focus it.
    pub fn clear_search(&mut self) -> (e: Vec<Effect>)
        ensures
            final(self).query@ == Seq::<char>::empty(),
            *final(self) == (AppState { query: final(self).query, ..*old(self) }),
            effects(e@) == seq![EffectView::FocusSearch],
    {
        self.query = String::new();
        let e = vec![Effect::FocusSearch];
        assert(effects(e@) =~= seq![EffectView::FocusSearch]);
        e
    }

    /// The delayed exit is due: exit, unless something was shown meanwhile.
    pub fn exit_requested(&self) -> (e: Vec<Effect>)
        ensures
            effects(e@) == if idle(*self) {
                seq![EffectView::Exit]
            } else {
                Seq::<EffectView>::empty()
            },
    {
        if self.should_exit() {
            let e = vec![Effect::Exit];
            assert(effects(e@) =~= seq![EffectView::Exit]);
            e
        } else {
            let e = Vec::new();
            assert(effects(e@) =~= Seq::<EffectView>::empty());
            e
        }
    }

    /// Open the settings: in settings mode the page is already the main
    /// window; otherwise focus the settings window, or open one.
    pub fn open_settings(&self) -> (e: Vec<Effect>)
        ensures
            effects(e@) == match self.mode {
                Mode::Settings => Seq::<EffectView>::empty(),
                Mode::Overlay => match self.settings_window {
                    Some(id) => seq![EffectView::FocusWindow(id)],
                    None => seq![EffectView::OpenSettingsWindow],
                },
            },
    {
        match self.mode {
            Mode::Settings => {
                let e = Vec::new();
                assert(effects(e@) =~= Seq::<EffectView>::empty());
                e
            },
            Mode::Overlay => match self.settings_window {
                Some(id) => {
                    let e = vec![Effect::FocusWindow(id)];
                    assert(effects(e@) =~= seq![EffectView::FocusWindow(id)]);
                    e
                },
                None => {
                    let e = vec![Effect::OpenSettingsWindow];
                    assert(effects(e@) =~= seq![EffectView::OpenSettingsWindow]);
                    e
                },
            },
        }
    }

    /// The settings window asked for was opened with id `id`.
    pub fn settings_opened(&mut self, id: u64)
        ensures
            *final(self) == (AppState { settings_window: Some(id), ..*old(self) }),
    {
        self.settings_window = Some(id);
    }

    /// Start recording a combination: the compositor stops handling its
    /// shortcuts, and the previous outcome is forgotten.
    pub fn start_recording(&mut self) -> (e: Vec<Effect>)
        ensures
            final(self).settings.recording,
            final(self).settings.pending.is_none(),
            final(self).settings.status.is_none(),
            final(self).settings.replace.is_none(),
            final(self).settings.text == old(self).settings.text,
            *final(self) == (AppState { settings: final(self).settings, ..*old(self) }),
            effects(e@) == seq![EffectView::InhibitShortcuts(true)],
    {
        self.settings.recording = true;
        self.settings.pending = None;
        self.settings.status = None;
        self.settings.replace = None;
        let e = vec![Effect::InhibitShortcuts(true)];
        assert(effects(e@) =~= seq![EffectView::InhibitShortcuts(true)]);
        e
    }

    /// Stop recording: the compositor handles its shortcuts again.
    pub fn stop_recording(&mut self) -> (e: Vec<Effect>)
        ensures
            !final(self).settings.recording,
            final(self).settings.pending.is_none(),
            final(self).settings.status == old(self).settings.status,
            final(self).settings.replace == old(self).settings.replace,
            final(self).settings.text == old(self).settings.text,
            *final(self) == (AppState { settings: final(self).settings, ..*old(self) }),
            effects(e@) == seq![EffectView::InhibitShortcuts(false)],
    {
        self.settings.recording = false;
        self.settings.pending = None;
        let e = vec![Effect::InhibitShortcuts(false)];
        assert(effects(e@) =~= seq![EffectView::InhibitShortcuts(false)]);
        e
    }

    /// Escape reached the application (the overlay handles its own): it
    /// stops a recording in progress.
    pub fn on_escape(&mut self) -> (e: Vec<Effect>)
        ensures
            old(self).settings.recording ==> *final(self) == stopped(*old(self))
                && effects(e@) == seq![EffectView::InhibitShortcuts(false)],
            !old(self).settings.recording ==> *final(self) == *old(self) && e@.len() == 0,
    {
        if self.settings.recording {
            self.stop_recording()
        } else {
            Vec::new()
        }
    }

    /// Whether the settings page shows the combination as registered: one
    /// is recorded as registered, and the custom shortcuts (when they could
    /// be read) bind the chosen combination to one of our actions.
    pub fn shows_registered(&self, custom: Option<&Shortcuts>) -> (r: bool)
        requires
            custom matches Some(c) ==> c.wf(),
        ensures
            r == (self.config.registered.is_some() && match custom {
                Some(c) => registered_in(c@, self.config.binding@),
                None => false,
            }),
    {
        if self.config.registered.is_none() {
            return false;
        }
        match custom {
            Some(c) => is_registered(c, &self.config.binding),
            None => false,
        }
    }

    /// The held modifiers changed: while recording, show them.
    pub fn modifiers_changed(&mut self, mods: KeyboardModifiers)
        ensures
            old(self).settings.recording ==> (final(self).settings.pending matches Some(b)
                && b@ == (BindingView { modifiers: modifiers_of(mods), keycode: None, key: None, description: None })),
            old(self).settings.recording ==> *final(self) == (AppState {
                settings: State { pending: final(self).settings.pending, ..old(self).settings },
                ..*old(self)
            }),
            !old(self).settings.recording ==> *final(self) == *old(self),
    {
        if self.settings.recording {
            self.settings.pending = Some(Binding::new(modifiers(mods), None));
        }
    }

    /// Apply a chosen binding: validate it, check it against the merged
    /// shortcut table (unless `replace`), then ask for it to be written.
    pub fn apply_binding(&mut self, binding: Binding, replace: bool, merged: &Shortcuts) -> (e: Vec<Effect>)
        requires
            merged.wf(),
        ensures
            applied(*old(self), *final(self), binding@, replace, merged@, effects(e@)),
    {
        if let Err(why) = validate(&binding) {
            let mut msg = String::from_str("Invalid key combination: ");
            msg.append(why.as_str());
            proof {
                reveal_strlit("Invalid key combination: ");
            }
            self.settings.status = Some(Status::Error(msg));
            let e = Vec::new();
            assert(effects(e@) =~= Seq::<EffectView>::empty());
            return e;
        }
        if !replace {
            if let Some(action) = conflict(merged, &binding) {
                let label = match merged.get_key_value(&binding) {
                    Some(kv) => action_label(&action, Some(kv.0)),
                    None => action_label(&action, None),
                };
                self.settings.replace = Some((binding, label));
                let e = Vec::new();
                assert(effects(e@) =~= Seq::<EffectView>::empty());
                return e;
            }
        }
        self.settings.replace = None;
        let ghost b = binding@;
        let e = vec![Effect::Register(binding)];
        assert(effects(e@) =~= seq![EffectView::Register(b)]);
        e
    }

    /// A typed combination could not be read.
    pub fn invalid_binding(&mut self, why: &str)
        ensures
            *final(self) == (AppState { settings: State { status: final(self).settings.status, ..old(self).settings }, ..*old(self) }),
            opt_status(final(self).settings.status) == Some(StatusView::Error(invalid_text(why@))),
    {
        let mut msg = String::from_str("Invalid key combination: ");
        msg.append(why);
        proof {
            reveal_strlit("Invalid key combination: ");
        }
        self.settings.status = Some(Status::Error(msg));
    }

    /// A change could not be written (the shortcut or the app configuration).
    pub fn write_failed(&mut self, why: &str)
        ensures
            *final(self) == (AppState { settings: State { status: final(self).settings.status, ..old(self).settings }, ..*old(self) }),
            opt_status(final(self).settings.status) == Some(StatusView::Error(write_error_text(why@))),
    {
        let mut msg = String::from_str("Could not save the change: ");
        msg.append(why);
        proof {
            reveal_strlit("Could not save the change: ");
        }
        self.settings.status = Some(Status::Error(msg));
    }

    /// `binding` was written into the compositor's shortcuts: it becomes the
    /// chosen and registered combination, the typed text is cleared, and the
    /// configuration is saved and the cheatsheet rebuilt.
    pub fn registered(&mut self, binding: &Binding, names: &KeyNames) -> (e: Vec<Effect>)
        requires
            names.wf(),
        ensures
            final(self).config.binding@ == binding@,
            final(self).config.registered matches Some(b) && b@ == binding@,
            final(self).config.auto_register,
            final(self).config.resident == old(self).config.resident,
            final(self).settings.text@ == Seq::<char>::empty(),
            opt_status(final(self).settings.status) == Some(
                StatusView::Success(registered_text(joined(chip_texts(binding@, names@), " + "@))),
            ),
            *final(self) == (AppState {
                config: final(self).config,
                settings: State { text: final(self).settings.text, status: final(self).settings.status, ..old(self).settings },
                ..*old(self)
            }),
            effects(e@) == seq![EffectView::SaveConfig, EffectView::ReloadShortcuts],
    {
        self.config.mark_registered(binding);
        self.settings.text = String::new();
        let mut msg = String::from_str("Shortcut set to ");
        let shown = display(binding, names);
        msg.append(shown.as_str());
        proof {
            reveal_strlit("Shortcut set to ");
        }
        self.settings.status = Some(Status::Success(msg));
        let e = vec![Effect::SaveConfig, Effect::ReloadShortcuts];
        assert(effects(e@) =~= seq![EffectView::SaveConfig, EffectView::ReloadShortcuts]);
        e
    }

    /// Our entry was removed from the compositor's shortcuts: nothing is
    /// registered and automatic registration is off, so the next launch does
    /// not add it back; the configuration is saved and the cheatsheet rebuilt.
    pub fn unregistered(&mut self) -> (e: Vec<Effect>)
        ensures
            final(self).config.registered.is_none(),
            !final(self).config.auto_register,
            final(self).config.binding == old(self).config.binding,
            final(self).config.resident == old(self).config.resident,
            final(self).settings.status.is_none(),
            *final(self) == (AppState {
                config: final(self).config,
                settings: State { status: None, ..old(self).settings },
                ..*old(self)
            }),
            effects(e@) == seq![EffectView::SaveConfig, EffectView::ReloadShortcuts],
    {
        self.config.mark_unregistered();
        self.settings.status = None;
        let e = vec![Effect::SaveConfig, Effect::ReloadShortcuts];
        assert(effects(e@) =~= seq![EffectView::SaveConfig, EffectView::ReloadShortcuts]);
        e
    }

    /// A key was pressed in window `id` (`main_window` is the id of the main
    /// window, if any). While recording in the window that hosts the
    /// settings page: Escape without modifiers stops the recording, a
    /// modifier key shows the held modifiers, and any other key with a
    /// keysym stops the recording and applies the combination. Anything
    /// else is ignored.
    pub fn key_pressed(
        &mut self,
        id: u64,
        main_window: Option<u64>,
        key: &Key,
        keysym: Option<u32>,
        mods: KeyboardModifiers,
        merged: &Shortcuts,
    ) -> (e: Vec<Effect>)
        requires
            merged.wf(),
        ensures
            ({
                let target = match old(self).settings_window {
                    Some(w) => Some(w),
                    None => main_window,
                };
                let ignored = !old(self).settings.recording || old(self).overlay_visible || Some(id) != target;
                let no_mods = !mods.logo && !mods.control && !mods.alt && !mods.shift;
                &&& ignored ==> *final(self) == *old(self) && e@.len() == 0
                &&& !ignored && *key == Key::Named(NamedKey::Escape) && no_mods
                    ==> *final(self) == stopped(*old(self)) && effects(e@) == seq![EffectView::InhibitShortcuts(false)]
                &&& !ignored && !(*key == Key::Named(NamedKey::Escape) && no_mods) && modifier_key(*key)
                    ==> *final(self) == (AppState {
                        settings: State { pending: final(self).settings.pending, ..old(self).settings },
                        ..*old(self)
                    }) && (final(self).settings.pending matches Some(b) && b@ == (BindingView {
                        modifiers: modifiers_of(mods),
                        keycode: None,
                        key: None,
                        description: None,
                    })) && e@.len() == 0
                &&& !ignored && !(*key == Key::Named(NamedKey::Escape) && no_mods) && !modifier_key(*key)
                    && keysym.is_none() ==> *final(self) == *old(self) && e@.len() == 0
                &&& !ignored && !(*key == Key::Named(NamedKey::Escape) && no_mods) && !modifier_key(*key)
                    && keysym.is_some() ==> effects(e@).len() >= 1
                    && effects(e@)[0] == EffectView::InhibitShortcuts(false)
                    && applied(
                        stopped(*old(self)),
                        *final(self),
                        BindingView { modifiers: modifiers_of(mods), keycode: None, key: keysym, description: None },
                        false,
                        merged@,
                        effects(e@).skip(1),
                    )
            }),
    {
        let target = match self.settings_window {
            Some(w) => Some(w),
            None => main_window,
        };
        if !self.settings.recording || self.overlay_visible || Some(id) != target {
            return Vec::new();
        }
        let no_mods = !mods.logo && !mods.control && !mods.alt && !mods.shift;
        if matches!(key, Key::Named(NamedKey::Escape)) && no_mods {
            return self.stop_recording();
        }
        assert(!(*key == Key::Named(NamedKey::Escape) && no_mods));
        if is_modifier_key(key) {
            self.settings.pending = Some(Binding::new(modifiers(mods), None));
            return Vec::new();
        }
        match binding_from_key(key, keysym, mods) {
            Some(binding) => {
                let mut e = self.stop_recording();
                let ghost mid = *self;
                let rest = self.apply_binding(binding, false, merged);
                let ghost first = e@;
                let ghost tail = rest@;
                let mut rest = rest;
                assert(effects(first).len() == 1);
                e.append(&mut rest);
                assert(e@ =~= first + tail);
                assert(effects(e@).skip(1) =~= effects(tail));
                assert(effects(e@)[0] == effects(first)[0]);
                assert(mid == stopped(*old(self)));
                e
            },
            None => Vec::new(),
        }
    }

    /// A message of the settings page.
    pub fn settings_message(&mut self, message: SettingsMessage, merged: &Shortcuts) -> (e: Vec<Effect>)
        requires
            merged.wf(),
        ensures
            match message {
                SettingsMessage::StartRecording => {
                    &&& final(self).settings.recording
                    &&& final(self).settings.pending.is_none()
                    &&& final(self).settings.status.is_none()
                    &&& final(self).settings.replace.is_none()
                    &&& *final(self) == (AppState { settings: State { text: old(self).settings.text, ..final(self).settings }, ..*old(self) })
                    &&& effects(e@) == seq![EffectView::InhibitShortcuts(true)]
                },
                SettingsMessage::CancelRecording => *final(self) == stopped(*old(self))
                    && effects(e@) == seq![EffectView::InhibitShortcuts(false)],
                SettingsMessage::TextChanged(t) => final(self).settings.text@ == t@
                    && *final(self) == (AppState { settings: State { text: final(self).settings.text, ..old(self).settings }, ..*old(self) })
                    && e@.len() == 0,
                SettingsMessage::ApplyText => *final(self) == *old(self) && effects(e@) == if trimmed(old(self).settings.text@).len() == 0 {
                    Seq::<EffectView>::empty()
                } else {
                    seq![EffectView::ReadText(trimmed(old(self).settings.text@))]
                },
                SettingsMessage::ReplaceConfirm => match old(self).settings.replace {
                    Some(p) => applied(
                        AppState { settings: State { replace: None, ..old(self).settings }, ..*old(self) },
                        *final(self),
                        p.0@,
                        true,
                        merged@,
                        effects(e@),
                    ),
                    None => *final(self) == *old(self) && e@.len() == 0,
                },
                SettingsMessage::ReplaceCancel => *final(self) == (AppState { settings: State { replace: None, ..old(self).settings }, ..*old(self) })
                    && e@.len() == 0,
                SettingsMessage::Remove => *final(self) == *old(self) && effects(e@) == seq![EffectView::Unregister],
                SettingsMessage::ToggleResident(v) => *final(self) == (AppState {
                    config: CheatsheetConfig { resident: v, ..old(self).config },
                    ..*old(self)
                }) && effects(e@) == seq![EffectView::SaveConfig],
            },
    {
        match message {
            SettingsMessage::StartRecording => self.start_recording(),
            SettingsMessage::CancelRecording => self.stop_recording(),
            SettingsMessage::TextChanged(text) => {
                self.settings.text = text;
                Vec::new()
            },
            SettingsMessage::ApplyText => {
                let t = trim_chars(&chars_of(self.settings.text.as_str()));
                if t.len() == 0 {
                    let e = Vec::new();
                    assert(effects(e@) =~= Seq::<EffectView>::empty());
                    return e;
                }
                let e = vec![Effect::ReadText(string_of(&t))];
                assert(effects(e@) =~= seq![EffectView::ReadText(trimmed(self.settings.text@))]);
                e
            },
            SettingsMessage::ReplaceConfirm => {
                let pending = self.settings.replace.take();
                match pending {
                    Some(p) => self.apply_binding(p.0, true, merged),
                    None => Vec::new(),
                }
            },
            SettingsMessage::ReplaceCancel => {
                self.settings.replace = None;
                Vec::new()
            },
            SettingsMessage::Remove => {
                let e = vec![Effect::Unregister];
                assert(effects(e@) =~= seq![EffectView::Unregister]);
                e
            },
            SettingsMessage::ToggleResident(value) => {
                self.config.resident = value;
                let e = vec![Effect::SaveConfig];
                assert(effects(e@) =~= seq![EffectView::SaveConfig]);
                e
            },
        }
    }

    /// A message of the overlay. `model` is the cheatsheet it shows.
    pub fn overlay_message(&mut self, message: OverlayMessage, model: &CheatsheetModel) -> (e: Vec<Effect>)
        ensures
            match message {
                OverlayMessage::Close => *final(self) == hidden(*old(self)) && effects(e@) == hide_effects(*old(self)),
                OverlayMessage::OpenSettings => *final(self) == hidden(*old(self)) && effects(e@) == (if old(self).overlay_visible {
                    seq![EffectView::CloseOverlay]
                } else {
                    Seq::<EffectView>::empty()
                }) + settings_effects(*old(self)),
                OverlayMessage::Run(c) => *final(self) == hidden(*old(self)) && effects(e@) == seq![EffectView::Run(c@)] + hide_effects(*old(self)),
                OverlayMessage::SearchChanged(q) => final(self).query@ == q@
                    && *final(self) == (AppState { query: final(self).query, ..*old(self) }) && e@.len() == 0,
                OverlayMessage::SearchClear => final(self).query@ == Seq::<char>::empty()
                    && *final(self) == (AppState { query: final(self).query, ..*old(self) })
                    && effects(e@) == seq![EffectView::FocusSearch],
                OverlayMessage::SearchSubmit => match enter_target_of(search_of(model@, old(self).query@)) {
                    Some(t) => *final(self) == hidden(*old(self))
                        && effects(e@) == seq![EffectView::Run(t.command.unwrap())] + hide_effects(*old(self)),
                    None => *final(self) == *old(self) && e@.len() == 0,
                },
                OverlayMessage::Noop => *final(self) == *old(self) && e@.len() == 0,
            },
            exits_only_when_idle(effects(e@), *final(self)),
    {
        match message {
            OverlayMessage::Close => self.hide_overlay(),
            OverlayMessage::OpenSettings => {
                let mut e = self.hide_keep_alive();
                let ghost first = e@;
                let mut more = self.open_settings();
                let ghost second = more@;
                e.append(&mut more);
                assert(e@ =~= first + second);
                assert(effects(e@) =~= effects(first) + effects(second));
                e
            },
            OverlayMessage::Run(command) => self.run(command),
            OverlayMessage::SearchChanged(query) => {
                self.query = query;
                Vec::new()
            },
            OverlayMessage::SearchClear => self.clear_search(),
            OverlayMessage::SearchSubmit => {
                let command = {
                    let search = model.search(self.query.as_str());
                    match search.enter_target() {
                        Some(entry) => match &entry.command {
                            Some(c) => Some(c.clone()),
                            None => None,
                        },
                        None => None,
                    }
                };
                match command {
                    Some(c) => self.run(c),
                    None => Vec::new(),
                }
            },
            OverlayMessage::Noop => Vec::new(),
        }
    }

    /// Run a command, then hide the overlay.
    fn run(&mut self, command: String) -> (e: Vec<Effect>)
        ensures
            *final(self) == hidden(*old(self)),
            effects(e@) == seq![EffectView::Run(command@)] + hide_effects(*old(self)),
            exits_only_when_idle(effects(e@), *final(self)),
    {
        let mut e = vec![Effect::Run(command)];
        let ghost first = e@;
        let mut more = self.hide_overlay();
        let ghost second = more@;
        e.append(&mut more);
        assert(e@ =~= first + second);
        assert(effects(e@) =~= effects(first) + effects(second));
        e
    }

    /// The app configuration changed on disk.
    pub fn config_updated(&mut self, config: CheatsheetConfig)
        ensures
            *final(self) == (AppState { config, ..*old(self) }),
    {
        self.config = config;
    }

    /// A D-Bus activation: a plain activation (no action) toggles the
    /// overlay, an action names a sub-command; unknown actions and the
    /// sub-commands that write the shortcut do nothing.
    pub fn activate(&mut self, action: Option<&str>) -> (e: Vec<Effect>)
        ensures
            ({
                let cmd = match action {
                    None => Some(Cmd::Toggle),
                    Some(a) => cmd_named(a@),
                };
                &&& cmd == Some(Cmd::Hide) ==> *final(self) == hidden(*old(self)) && effects(e@) == hide_effects(*old(self))
                &&& cmd == Some(Cmd::Toggle) && old(self).overlay_visible ==> *final(self) == hidden(*old(self))
                    && effects(e@) == hide_effects(*old(self))
                &&& cmd == Some(Cmd::Toggle) && !old(self).overlay_visible ==> final(self).query@ == Seq::<char>::empty()
                    && *final(self) == (AppState { overlay_visible: true, query: final(self).query, ..*old(self) })
                    && effects(e@) == seq![EffectView::OpenOverlay]
                &&& cmd == Some(Cmd::Show) && old(self).overlay_visible ==> *final(self) == *old(self) && e@.len() == 0
                &&& cmd == Some(Cmd::Show) && !old(self).overlay_visible ==> final(self).query@ == Seq::<char>::empty()
                    && *final(self) == (AppState { overlay_visible: true, query: final(self).query, ..*old(self) })
                    && effects(e@) == seq![EffectView::OpenOverlay]
                &&& cmd == Some(Cmd::Settings) ==> *final(self) == hidden(*old(self))
                    && effects(e@) == (if old(self).overlay_visible {
                        seq![EffectView::CloseOverlay]
                    } else {
                        Seq::<EffectView>::empty()
                    }) + settings_effects(*old(self))
                &&& (cmd.is_none() || cmd matches Some(Cmd::Register { .. }) || cmd == Some(Cmd::Unregister))
                    ==> *final(self) == *old(self) && e@.len() == 0
            }),
            exits_only_when_idle(effects(e@), *final(self)),
    {
        let cmd = match action {
            None => Cmd::Toggle,
            Some(a) => match Cmd::parse(a) {
                Ok(c) => c,
                Err(()) => return Vec::new(),
            },
        };
        match cmd {
            Cmd::Toggle => self.toggle(),
            Cmd::Show => self.show(),
            Cmd::Hide => self.hide_overlay(),
            Cmd::Settings => {
                let mut e = self.hide_keep_alive();
                let ghost first = e@;
                let mut more = self.open_settings();
                let ghost second = more@;
                e.append(&mut more);
                assert(e@ =~= first + second);
                assert(effects(e@) =~= effects(first) + effects(second));
                e
            },
            Cmd::Register { .. } | Cmd::Unregister => Vec::new(),
        }
    }
}

/// After the first-launch registration of the configured combination
/// ([`Startup::RegisterDefault`]): when it was written, it is recorded as
/// registered. Returns whether the configuration changed and must be saved.
pub fn default_registered(config: &mut CheatsheetConfig, written: bool) -> (changed: bool)
    requires
        startup_of(*old(config)) == Startup::RegisterDefault,
    ensures
        changed == written,
        written ==> (final(config).registered matches Some(b) && b@ == old(config).binding@),
        written ==> final(config).binding@ == old(config).binding@ && final(config).auto_register
            && final(config).resident == old(config).resident,
        !written ==> *final(config) == *old(config),
{
    if written {
        let binding = config.binding.duplicate();
        config.mark_registered(&binding);
    }
    written
}

/// After checking the registered entry at launch ([`Startup::Sync`]): when
/// the combination is gone or bound to something else now, the user
/// removed or reassigned it, so it is treated as unregistered and not added
/// back. Returns whether the configuration changed and must be saved.
pub fn startup_checked(config: &mut CheatsheetConfig, outcome: Sync) -> (changed: bool)
    ensures
        changed == (outcome == Sync::Missing || outcome == Sync::Foreign),
        changed ==> final(config).registered.is_none() && !final(config).auto_register
            && final(config).binding == old(config).binding && final(config).resident == old(config).resident
            && startup_of(*final(config)) == Startup::Nothing,
        !changed ==> *final(config) == *old(config),
{
    match outcome {
        Sync::Missing | Sync::Foreign => {
            config.mark_unregistered();
            true
        },
        Sync::Updated | Sync::Unchanged => false,
    }
}

} // verus!
