use cosmic_ext_cheatsheet::sandbox::{active, host_launch_command, shell_command};

#[test]
fn host_launch_runs_through_flatpak() {
    assert_eq!(
        host_launch_command(),
        "flatpak run --command=cosmic-ext-cheatsheet io.github.michelet76.CosmicExtCheatsheet toggle"
    );
}

#[test]
fn shell_command_direct_and_sandboxed() {
    let (p, a) = shell_command("echo hi", false);
    assert_eq!(p, "/bin/sh");
    assert_eq!(a, vec!["-c".to_string(), "echo hi".to_string()]);
    let (p, a) = shell_command("echo hi", true);
    assert_eq!(p, "flatpak-spawn");
    assert_eq!(a, vec!["--host".to_string(), "/bin/sh".to_string(), "-c".to_string(), "echo hi".to_string()]);
}

#[test]
fn active_matches_the_flatpak_marker() {
    assert_eq!(active(), std::path::Path::new("/.flatpak-info").exists());
}
