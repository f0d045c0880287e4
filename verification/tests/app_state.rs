use cosmic_ext_cheatsheet::app_state::{default_registered, startup_checked, AppState, Effect, LayerEvent, Mode};
use cosmic_ext_cheatsheet::cli::Cmd;
use cosmic_ext_cheatsheet::config::{CheatsheetConfig, Startup};
use cosmic_ext_cheatsheet::keycapture::{Key, KeyboardModifiers, NamedKey};
use cosmic_ext_cheatsheet::registration::Sync;
use cosmic_ext_cheatsheet::shortcuts::action::{Action, System};
use cosmic_ext_cheatsheet::shortcuts::binding::{Binding, KeyNames, Modifiers, Shortcuts, SystemActions};
use cosmic_ext_cheatsheet::shortcuts::CheatsheetModel;
use cosmic_ext_cheatsheet::view::cheatsheet::Message as OverlayMessage;
use cosmic_ext_cheatsheet::view::settings::{Message as SettingsMessage, Status};

const OVERLAY: u64 = 1;
const SETTINGS: u64 = 2;

fn names() -> KeyNames {
    let mut n = KeyNames::new();
    n.insert(0x2f, "slash".to_string());
    n.insert(0x6b, "k".to_string());
    n.insert(0x74, "t".to_string());
    n
}

fn kinds(e: &[Effect]) -> Vec<String> {
    e.iter().map(|x| format!("{x:?}")).collect()
}

fn fresh(cmd: Option<Cmd>) -> AppState {
    AppState::new(cmd, CheatsheetConfig::default(), OVERLAY)
}

fn no_mods() -> KeyboardModifiers {
    KeyboardModifiers { logo: false, control: false, alt: false, shift: false }
}

#[test]
fn start_shows_the_overlay() {
    let mut app = fresh(None);
    assert_eq!(app.mode, Mode::Overlay);
    let e = app.start(None);
    assert_eq!(kinds(&e), vec!["OpenOverlay"]);
    assert!(app.overlay_visible);
}

#[test]
fn start_hidden_exits() {
    let mut app = fresh(Some(Cmd::Hide));
    let e = app.start(Some(Cmd::Hide));
    assert_eq!(kinds(&e), vec!["ExitSoon"]);
    assert!(!app.overlay_visible);
}

#[test]
fn start_in_settings_mode_titles_the_window() {
    let mut app = fresh(Some(Cmd::Settings));
    assert_eq!(app.mode, Mode::Settings);
    let e = app.start(Some(Cmd::Settings));
    assert_eq!(kinds(&e), vec!["ShowSettingsTitle"]);
    assert!(!app.should_exit());
}

#[test]
fn hiding_exits_unless_resident() {
    let mut app = fresh(None);
    app.show();
    assert_eq!(kinds(&app.hide_overlay()), vec!["CloseOverlay", "ExitSoon"]);
    assert!(app.should_exit());
    assert_eq!(kinds(&app.exit_requested()), vec!["Exit"]);

    let mut resident = fresh(None);
    resident.config.resident = true;
    resident.show();
    assert_eq!(kinds(&resident.hide_overlay()), vec!["CloseOverlay"]);
    assert!(!resident.should_exit());
    assert!(resident.exit_requested().is_empty());
}

#[test]
fn show_again_after_delayed_exit_cancels_it() {
    let mut app = fresh(None);
    app.show();
    app.hide_overlay();
    app.show();
    assert!(app.exit_requested().is_empty());
}

#[test]
fn every_open_starts_from_the_full_list() {
    let mut app = fresh(None);
    app.config.resident = true;
    app.show();
    app.overlay_message(OverlayMessage::SearchChanged("term".to_string()), &CheatsheetModel { categories: Vec::new() });
    assert_eq!(app.query, "term");
    app.hide_overlay();
    app.show();
    assert_eq!(app.query, "");
}

#[test]
fn toggle_flips_visibility() {
    let mut app = fresh(None);
    app.config.resident = true;
    assert_eq!(kinds(&app.toggle()), vec!["OpenOverlay"]);
    assert!(app.overlay_visible);
    assert_eq!(kinds(&app.toggle()), vec!["CloseOverlay"]);
    assert!(!app.overlay_visible);
    assert!(app.show().len() == 1);
    assert!(app.show().is_empty());
}

#[test]
fn escape_clears_search_then_closes() {
    let mut app = fresh(None);
    app.show();
    app.overlay_message(OverlayMessage::SearchChanged("x".to_string()), &CheatsheetModel { categories: Vec::new() });
    assert_eq!(kinds(&app.overlay_escape(OVERLAY)), vec!["FocusSearch"]);
    assert_eq!(app.query, "");
    assert!(app.overlay_visible);
    assert_eq!(kinds(&app.overlay_escape(OVERLAY)), vec!["CloseOverlay", "ExitSoon"]);
    assert!(!app.overlay_visible);
    assert!(app.overlay_escape(OVERLAY).is_empty());
}

#[test]
fn escape_of_another_surface_is_ignored() {
    let mut app = fresh(None);
    app.show();
    assert!(app.overlay_escape(7).is_empty());
    assert!(app.overlay_visible);
}

#[test]
fn losing_focus_hides_the_overlay() {
    let mut app = fresh(None);
    app.show();
    assert_eq!(kinds(&app.layer_event(LayerEvent::Focused, OVERLAY)), vec!["FocusSearch"]);
    assert!(app.layer_event(LayerEvent::Other, OVERLAY).is_empty());
    assert!(app.layer_event(LayerEvent::Unfocused, 9).is_empty());
    assert_eq!(kinds(&app.layer_event(LayerEvent::Unfocused, OVERLAY)), vec!["CloseOverlay", "ExitSoon"]);
}

#[test]
fn open_settings_from_overlay_keeps_the_process() {
    let mut app = fresh(None);
    app.show();
    let e = app.overlay_message(OverlayMessage::OpenSettings, &CheatsheetModel { categories: Vec::new() });
    assert_eq!(kinds(&e), vec!["CloseOverlay", "OpenSettingsWindow"]);
    app.settings_opened(SETTINGS);
    assert!(!app.should_exit());
    assert_eq!(kinds(&app.open_settings()), vec!["FocusWindow(2)"]);
    assert_eq!(kinds(&app.window_closed(SETTINGS)), vec!["ExitSoon"]);
    assert!(app.settings_window.is_none());
}

#[test]
fn closing_settings_while_recording_stops_it() {
    let mut app = fresh(None);
    app.settings_opened(SETTINGS);
    assert_eq!(kinds(&app.settings_message(SettingsMessage::StartRecording, &Shortcuts::new())), vec!["InhibitShortcuts(true)"]);
    assert!(app.settings.recording);
    assert_eq!(kinds(&app.window_closed(SETTINGS)), vec!["InhibitShortcuts(false)", "ExitSoon"]);
    assert!(!app.settings.recording);
}

#[test]
fn compositor_closing_the_overlay() {
    let mut app = fresh(None);
    app.show();
    assert_eq!(kinds(&app.window_closed(OVERLAY)), vec!["ExitSoon"]);
    assert!(!app.overlay_visible);
    assert!(app.window_closed(OVERLAY).is_empty());
}

#[test]
fn running_a_row_runs_then_hides() {
    let mut app = fresh(None);
    app.show();
    let e = app.overlay_message(OverlayMessage::Run("cosmic-term".to_string()), &CheatsheetModel { categories: Vec::new() });
    assert_eq!(kinds(&e), vec!["Run(\"cosmic-term\")", "CloseOverlay", "ExitSoon"]);
}

#[test]
fn enter_runs_the_first_match() {
    let mut table = Shortcuts::new();
    table.insert(Binding::new(Modifiers::new().logo(), Some(0x74)), Action::System(System::Terminal));
    let mut sys = SystemActions::new();
    sys.insert(System::Terminal, "cosmic-term".to_string());
    let model = CheatsheetModel::from_shortcuts(&table, &sys, &names());
    let mut app = fresh(None);
    app.show();
    assert!(app.overlay_message(OverlayMessage::SearchSubmit, &model).is_empty());
    app.overlay_message(OverlayMessage::SearchChanged("terminal".to_string()), &model);
    let e = app.overlay_message(OverlayMessage::SearchSubmit, &model);
    assert_eq!(kinds(&e), vec!["Run(\"cosmic-term\")", "CloseOverlay", "ExitSoon"]);
}

#[test]
fn recording_a_free_combination_registers_it() {
    let mut app = fresh(Some(Cmd::Settings));
    app.settings_message(SettingsMessage::StartRecording, &Shortcuts::new());
    let logo = KeyboardModifiers { logo: true, control: false, alt: false, shift: false };
    // A modifier alone only shows what is held.
    assert!(app.key_pressed(5, Some(5), &Key::Named(NamedKey::Super), Some(0xffeb), logo, &Shortcuts::new()).is_empty());
    assert_eq!(app.settings.pending.as_ref().map(|b| b.modifiers), Some(Modifiers::new().logo()));
    // A key in another window is ignored.
    assert!(app.key_pressed(6, Some(5), &Key::Character("k".to_string()), Some(0x6b), logo, &Shortcuts::new()).is_empty());
    let e = app.key_pressed(5, Some(5), &Key::Character("k".to_string()), Some(0x6b), logo, &Shortcuts::new());
    assert_eq!(e.len(), 2);
    assert_eq!(kinds(&e[..1]), vec!["InhibitShortcuts(false)"]);
    match &e[1] {
        Effect::Register(b) => {
            assert_eq!(b.modifiers, Modifiers::new().logo());
            assert_eq!(b.key, Some(0x6b));
        },
        other => panic!("unexpected {other:?}"),
    }
    assert!(!app.settings.recording);
    let b = Binding::new(Modifiers::new().logo(), Some(0x6b));
    assert_eq!(kinds(&app.registered(&b, &names())), vec!["SaveConfig", "ReloadShortcuts"]);
    assert_eq!(app.settings.status, Some(Status::Success("Shortcut set to Super + K".to_string())));
    assert_eq!(app.config.registered.as_ref().map(|r| r.key), Some(Some(0x6b)));
    assert!(app.config.auto_register);
}

#[test]
fn escape_while_recording_stops() {
    let mut app = fresh(Some(Cmd::Settings));
    app.start_recording();
    let e = app.key_pressed(5, Some(5), &Key::Named(NamedKey::Escape), None, no_mods(), &Shortcuts::new());
    assert_eq!(kinds(&e), vec!["InhibitShortcuts(false)"]);
    assert!(!app.settings.recording);
}

#[test]
fn invalid_combination_is_reported() {
    let mut app = fresh(Some(Cmd::Settings));
    let e = app.apply_binding(Binding::new(Modifiers::new().logo(), None), false, &Shortcuts::new());
    assert!(e.is_empty());
    assert_eq!(
        app.settings.status,
        Some(Status::Error("Invalid key combination: Super alone is reserved for the launcher".to_string()))
    );
}

#[test]
fn conflicting_combination_asks_before_replacing() {
    let mut merged = Shortcuts::new();
    let combo = Binding::new(Modifiers::new().logo(), Some(0x74));
    merged.insert(combo.clone(), Action::System(System::Terminal));
    let mut app = fresh(Some(Cmd::Settings));
    assert!(app.apply_binding(combo.clone(), false, &merged).is_empty());
    let (pending, label) = app.settings.replace.as_ref().unwrap();
    assert_eq!(pending.key, Some(0x74));
    assert_eq!(label, "Open a terminal");
    assert!(app.settings_message(SettingsMessage::ReplaceCancel, &merged).is_empty());
    assert!(app.settings.replace.is_none());
    app.apply_binding(combo, false, &merged);
    let e = app.settings_message(SettingsMessage::ReplaceConfirm, &merged);
    assert_eq!(e.len(), 1);
    assert!(matches!(&e[0], Effect::Register(b) if b.key == Some(0x74)));
    assert!(app.settings.replace.is_none());
}

#[test]
fn typed_text_is_trimmed_before_reading() {
    let mut app = fresh(Some(Cmd::Settings));
    app.settings_message(SettingsMessage::TextChanged("  Super+k  ".to_string()), &Shortcuts::new());
    assert_eq!(app.settings.text, "  Super+k  ");
    assert_eq!(kinds(&app.settings_message(SettingsMessage::ApplyText, &Shortcuts::new())), vec!["ReadText(\"Super+k\")"]);
    app.settings_message(SettingsMessage::TextChanged("   ".to_string()), &Shortcuts::new());
    assert!(app.settings_message(SettingsMessage::ApplyText, &Shortcuts::new()).is_empty());
    app.invalid_binding("empty part in key combination");
    assert_eq!(app.settings.status, Some(Status::Error("Invalid key combination: empty part in key combination".to_string())));
}

#[test]
fn removal_and_resident_toggle() {
    let mut app = fresh(Some(Cmd::Settings));
    assert_eq!(kinds(&app.settings_message(SettingsMessage::Remove, &Shortcuts::new())), vec!["Unregister"]);
    assert_eq!(kinds(&app.unregistered()), vec!["SaveConfig", "ReloadShortcuts"]);
    assert!(app.config.registered.is_none());
    assert!(!app.config.auto_register);
    assert_eq!(app.config.startup(), Startup::Nothing);
    assert_eq!(kinds(&app.settings_message(SettingsMessage::ToggleResident(true), &Shortcuts::new())), vec!["SaveConfig"]);
    assert!(app.config.resident);
    app.write_failed("disk full");
    assert_eq!(app.settings.status, Some(Status::Error("Could not save the change: disk full".to_string())));
}

#[test]
fn activation_actions() {
    let mut app = fresh(None);
    app.config.resident = true;
    assert_eq!(kinds(&app.activate(None)), vec!["OpenOverlay"]);
    assert_eq!(kinds(&app.activate(Some("hide"))), vec!["CloseOverlay"]);
    assert_eq!(kinds(&app.activate(Some("show"))), vec!["OpenOverlay"]);
    assert!(app.activate(Some("bogus")).is_empty());
    assert!(app.activate(Some("register")).is_empty());
    assert_eq!(kinds(&app.activate(Some("settings"))), vec!["CloseOverlay", "OpenSettingsWindow"]);
    assert!(!app.overlay_visible);
}

#[test]
fn startup_registration_outcomes() {
    let mut c = CheatsheetConfig::default();
    assert!(!default_registered(&mut c, false));
    assert!(c.registered.is_none());
    assert!(default_registered(&mut c, true));
    assert_eq!(c.registered.as_ref().map(|b| b.key), Some(Some(0x2f)));
    assert_eq!(c.startup(), Startup::Sync);
    assert!(!startup_checked(&mut c, Sync::Unchanged));
    assert!(!startup_checked(&mut c, Sync::Updated));
    assert!(c.registered.is_some());
    assert!(startup_checked(&mut c, Sync::Foreign));
    assert!(c.registered.is_none());
    assert!(!c.auto_register);
    assert_eq!(c.startup(), Startup::Nothing);
}

#[test]
fn escape_stops_a_recording_only() {
    let mut app = fresh(Some(Cmd::Settings));
    assert!(app.on_escape().is_empty());
    app.start_recording();
    assert_eq!(kinds(&app.on_escape()), vec!["InhibitShortcuts(false)"]);
    assert!(!app.settings.recording);
}

#[test]
fn registered_is_shown_only_when_the_entry_is_ours() {
    let mut app = fresh(Some(Cmd::Settings));
    let mut custom = Shortcuts::new();
    custom.insert(app.config.binding.clone(), Action::Spawn("cosmic-ext-cheatsheet toggle".to_string()));
    assert!(!app.shows_registered(Some(&custom)));
    app.config.registered = Some(app.config.binding.clone());
    assert!(app.shows_registered(Some(&custom)));
    assert!(!app.shows_registered(None));
    let mut foreign = Shortcuts::new();
    foreign.insert(app.config.binding.clone(), Action::Spawn("firefox".to_string()));
    assert!(!app.shows_registered(Some(&foreign)));
}

#[test]
fn close_window_asks_to_close_it() {
    let app = fresh(None);
    assert_eq!(kinds(&app.close_window(4)), vec!["CloseWindow(4)"]);
    assert!(app.open_settings().len() == 1);
    let settings = fresh(Some(Cmd::Settings));
    assert!(settings.open_settings().is_empty());
}
