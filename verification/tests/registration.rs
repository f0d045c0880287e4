use cosmic_ext_cheatsheet::registration::{
    conflict, install_rank, is_own_action, is_registered, overlay_program, program_of, register,
    register_checked, registered_command, shell_quote, spawn_command, sync_command, sync_registration,
    unregister, writable_custom, CustomRead, Sync,
};
use cosmic_ext_cheatsheet::sandbox::host_launch_command;
use cosmic_ext_cheatsheet::shortcuts::action::{Action, System};
use cosmic_ext_cheatsheet::shortcuts::binding::{Binding, Modifiers, Shortcuts};

fn combo() -> Binding {
    Binding::new(Modifiers::new().logo().shift(), Some(0x2f))
}

fn other() -> Binding {
    Binding::new(Modifiers::new().logo(), Some(0x74))
}

fn spawn(cmd: &str) -> Action {
    Action::Spawn(cmd.to_string())
}

#[test]
fn shell_quote_keeps_plain_paths() {
    assert_eq!(shell_quote("/home/me/.local/bin/cosmic-ext-cheatsheet"), "/home/me/.local/bin/cosmic-ext-cheatsheet");
    assert_eq!(shell_quote("/a/b_c+d.e"), "/a/b_c+d.e");
}

#[test]
fn shell_quote_quotes_and_escapes() {
    assert_eq!(shell_quote("/my dir/app"), "'/my dir/app'");
    assert_eq!(shell_quote("/it's/app"), "'/it'\\''s/app'");
}

#[test]
fn program_is_first_word() {
    assert_eq!(program_of("  /usr/bin/foo  --bar"), "/usr/bin/foo");
    assert_eq!(program_of(""), "");
}

#[test]
fn own_actions_spawn_this_binary() {
    assert!(is_own_action(&spawn("cosmic-ext-cheatsheet toggle")));
    assert!(is_own_action(&spawn("/home/me/.local/bin/cosmic-ext-cheatsheet toggle")));
    assert!(!is_own_action(&spawn("cosmic-ext-cheatsheet-other toggle")));
    assert!(!is_own_action(&spawn("firefox")));
    assert!(!is_own_action(&Action::System(System::Terminal)));
}

#[test]
fn spawn_command_prefers_installed_name() {
    assert_eq!(spawn_command(None, None, false), "cosmic-ext-cheatsheet toggle");
    assert_eq!(spawn_command(Some("/usr/bin/cosmic-ext-cheatsheet"), None, false), "cosmic-ext-cheatsheet toggle");
    assert_eq!(spawn_command(Some("/usr/local/bin/x"), Some("/usr/local/bin/cosmic-ext-cheatsheet"), false), "cosmic-ext-cheatsheet toggle");
}

#[test]
fn spawn_command_uses_sibling_or_own_path() {
    assert_eq!(
        spawn_command(Some("/src/target/debug/other"), Some("/src/target/debug/cosmic-ext-cheatsheet"), false),
        "/src/target/debug/cosmic-ext-cheatsheet toggle"
    );
    assert_eq!(spawn_command(Some("/my dir/app"), None, false), "'/my dir/app' toggle");
}

#[test]
fn overlay_program_prefers_sibling() {
    assert_eq!(overlay_program(Some("/opt/x/cosmic-ext-cheatsheet")), "/opt/x/cosmic-ext-cheatsheet");
    assert_eq!(overlay_program(None), "cosmic-ext-cheatsheet");
}

#[test]
fn conflict_ignores_disabled_and_own_entries() {
    let mut merged = Shortcuts::new();
    merged.insert(combo(), Action::System(System::Terminal));
    assert_eq!(conflict(&merged, &combo()), Some(Action::System(System::Terminal)));
    assert_eq!(conflict(&merged, &other()), None);
    let mut disabled = Shortcuts::new();
    disabled.insert(combo(), Action::Disable);
    assert_eq!(conflict(&disabled, &combo()), None);
    let mut ours = Shortcuts::new();
    ours.insert(combo(), spawn("cosmic-ext-cheatsheet toggle"));
    assert_eq!(conflict(&ours, &combo()), None);
}

#[test]
fn register_replaces_own_entries_and_keeps_others() {
    let mut custom = Shortcuts::new();
    custom.insert(other(), spawn("/old/path/cosmic-ext-cheatsheet toggle"));
    let keep = Binding::new(Modifiers::new().ctrl().alt(), Some(0x74));
    custom.insert(keep.clone(), spawn("firefox"));
    register(&mut custom, Some(&other()), &combo(), "cosmic-ext-cheatsheet toggle".to_string());
    assert_eq!(custom.len(), 2);
    assert_eq!(custom.get(&keep), Some(&spawn("firefox")));
    assert_eq!(custom.get(&other()), None);
    assert_eq!(custom.get(&combo()), Some(&spawn("cosmic-ext-cheatsheet toggle")));
    let (stored, _) = custom.get_key_value(&combo()).unwrap();
    assert_eq!(stored.description.as_deref(), Some("Keyboard shortcut cheatsheet"));
    assert_eq!(stored.keycode, None);
    assert!(is_registered(&custom, &combo()));
    assert_eq!(registered_command(&custom, &combo()), Some("cosmic-ext-cheatsheet toggle".to_string()));
}

#[test]
fn register_keeps_a_given_description_and_twice_is_once() {
    let mut custom = Shortcuts::new();
    let mut b = combo();
    b.description = Some("Cheatsheet".to_string());
    register(&mut custom, None, &b, "cosmic-ext-cheatsheet toggle".to_string());
    register(&mut custom, None, &b, "cosmic-ext-cheatsheet toggle".to_string());
    assert_eq!(custom.len(), 1);
    let (stored, _) = custom.get_key_value(&combo()).unwrap();
    assert_eq!(stored.description.as_deref(), Some("Cheatsheet"));
}

#[test]
fn register_checked_refuses_conflicts_unless_forced() {
    let mut merged = Shortcuts::new();
    merged.insert(combo(), Action::System(System::Terminal));
    let mut custom = Shortcuts::new();
    let r = register_checked(&mut custom, &merged, None, &combo(), "cosmic-ext-cheatsheet toggle".to_string(), false);
    assert_eq!(r, Err(Action::System(System::Terminal)));
    assert_eq!(custom.len(), 0);
    let r = register_checked(&mut custom, &merged, None, &combo(), "cosmic-ext-cheatsheet toggle".to_string(), true);
    assert_eq!(r, Ok(()));
    assert!(is_registered(&custom, &combo()));
}

#[test]
fn unregister_removes_only_own_entries() {
    let mut custom = Shortcuts::new();
    custom.insert(combo(), spawn("cosmic-ext-cheatsheet toggle"));
    custom.insert(other(), spawn("firefox"));
    assert!(unregister(&mut custom));
    assert_eq!(custom.len(), 1);
    assert!(!is_registered(&custom, &combo()));
    assert_eq!(custom.get(&other()), Some(&spawn("firefox")));
    assert!(!unregister(&mut custom));
    assert_eq!(custom.len(), 1);
}

#[test]
fn install_rank_orders_installs() {
    assert_eq!(install_rank("cosmic-ext-cheatsheet toggle", Some("/home/me"), false), 3);
    assert_eq!(install_rank("/home/me/.local/bin/cosmic-ext-cheatsheet toggle", Some("/home/me"), true), 2);
    assert_eq!(install_rank("/home/me/.local/bin/cosmic-ext-cheatsheet toggle", Some("/home/me"), false), 0);
    assert_eq!(install_rank("'/home/me/.local/bin/cosmic-ext-cheatsheet' toggle", Some("/home/me"), true), 2);
    assert_eq!(install_rank("/home/me/.local/bin/cosmic-ext-cheatsheet toggle", None, true), 1);
    assert_eq!(install_rank("/src/target/debug/cosmic-ext-cheatsheet toggle", Some("/home/me"), true), 1);
    assert_eq!(install_rank("/gone/cosmic-ext-cheatsheet toggle", Some("/home/me"), false), 0);
}

#[test]
fn sync_rewrites_worse_installed_entries_only() {
    let mut custom = Shortcuts::new();
    custom.insert(combo(), spawn("/src/target/debug/cosmic-ext-cheatsheet toggle"));
    assert!(sync_command(&mut custom, &combo(), "cosmic-ext-cheatsheet toggle".to_string(), 3, 1));
    assert_eq!(registered_command(&custom, &combo()), Some("cosmic-ext-cheatsheet toggle".to_string()));
    assert!(!sync_command(&mut custom, &combo(), "cosmic-ext-cheatsheet toggle".to_string(), 3, 3));
    assert!(!sync_command(&mut custom, &combo(), "/src/target/debug/cosmic-ext-cheatsheet toggle".to_string(), 1, 3));
    assert_eq!(registered_command(&custom, &combo()), Some("cosmic-ext-cheatsheet toggle".to_string()));
}

#[test]
fn sync_registration_reports_missing_and_foreign() {
    let mut empty = Shortcuts::new();
    assert_eq!(sync_registration(&mut empty, &combo(), "cosmic-ext-cheatsheet toggle".to_string(), 3, 0), Sync::Missing);
    assert_eq!(empty.len(), 0);
    let mut foreign = Shortcuts::new();
    foreign.insert(combo(), spawn("firefox"));
    assert_eq!(sync_registration(&mut foreign, &combo(), "cosmic-ext-cheatsheet toggle".to_string(), 3, 0), Sync::Foreign);
    assert_eq!(foreign.get(&combo()), Some(&spawn("firefox")));
    let mut ours = Shortcuts::new();
    ours.insert(combo(), spawn("/old/cosmic-ext-cheatsheet toggle"));
    assert_eq!(sync_registration(&mut ours, &combo(), "cosmic-ext-cheatsheet toggle".to_string(), 3, 0), Sync::Updated);
    assert_eq!(sync_registration(&mut ours, &combo(), "cosmic-ext-cheatsheet toggle".to_string(), 3, 3), Sync::Unchanged);
}

#[test]
fn program_removes_shell_quotes() {
    assert_eq!(program_of("'/my dir/cosmic-ext-cheatsheet' toggle"), "/my dir/cosmic-ext-cheatsheet");
    assert_eq!(program_of("'/it'\\''s/app' toggle"), "/it's/app");
    assert_eq!(program_of("/a\\ b/app x"), "/a b/app");
}

#[test]
fn quoted_and_flatpak_spawns_are_own() {
    assert!(is_own_action(&spawn("'/my dir/cosmic-ext-cheatsheet' toggle")));
    assert!(is_own_action(&spawn(&host_launch_command())));
    assert!(!is_own_action(&spawn("flatpak run --command=other io.example.Other")));
    assert!(!is_own_action(&spawn("'/my dir/other' toggle")));
}

#[test]
fn sandboxed_spawn_command_launches_through_flatpak() {
    assert_eq!(spawn_command(Some("/app/bin/cosmic-ext-cheatsheet"), None, true), host_launch_command());
    assert!(is_own_action(&spawn(&spawn_command(None, None, true))));
}

#[test]
fn registering_a_quoted_path_is_read_back_as_ours() {
    let cmd = spawn_command(Some("/my dir/cosmic-ext-cheatsheet"), None, false);
    assert_eq!(cmd, "'/my dir/cosmic-ext-cheatsheet' toggle");
    let mut custom = Shortcuts::new();
    register(&mut custom, None, &combo(), cmd.clone());
    assert!(is_registered(&custom, &combo()));
    assert_eq!(registered_command(&custom, &combo()), Some(cmd));
}

#[test]
fn sync_leaves_a_foreign_combination_alone() {
    let mut custom = Shortcuts::new();
    custom.insert(combo(), spawn("firefox"));
    assert!(!sync_command(&mut custom, &combo(), "cosmic-ext-cheatsheet toggle".to_string(), 3, 0));
    assert_eq!(custom.len(), 1);
    assert_eq!(custom.get(&combo()), Some(&spawn("firefox")));
    let mut empty = Shortcuts::new();
    assert!(sync_command(&mut empty, &combo(), "cosmic-ext-cheatsheet toggle".to_string(), 3, 0));
    assert!(is_registered(&empty, &combo()));
}

#[test]
fn undecodable_custom_shortcuts_are_not_written() {
    assert!(writable_custom(CustomRead::Missing).unwrap().len() == 0);
    let mut t = Shortcuts::new();
    t.insert(other(), spawn("firefox"));
    assert_eq!(writable_custom(CustomRead::Table(t)).unwrap().len(), 1);
    assert_eq!(writable_custom(CustomRead::Undecodable("unknown variant".to_string())).err(), Some("unknown variant".to_string()));
}
