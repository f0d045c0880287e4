//! Helpers for behaving correctly inside a Flatpak sandbox.
//!
//! Two things change when the app is packaged as a Flatpak:
//!
//! * the compositor lives on the host, so the shortcut it stores must launch
//!   the app through `flatpak run` rather than by path;
//! * commands the user clicks in the cheatsheet belong to the host session,
//!   so they must be handed to `flatpak-spawn --host` instead of being run
//!   inside the sandbox, where they do not exist.

use vstd::prelude::*;

verus! {

/// The file that Flatpak puts at the root of every sandbox.
pub const FLATPAK_INFO: &'static str = "/.flatpak-info";

/// Calls `std::path::Path::exists` on `path`. Its answer depends on the file
/// system at the time of the call, so nothing is stated of it.
#[verifier::external_body]
fn path_exists(path: &str) -> bool {
    std::path::Path::new(path).exists()
}

/// Whether this process is running inside a Flatpak sandbox: whether
/// [`FLATPAK_INFO`] exists.
pub fn active() -> bool {
    path_exists(FLATPAK_INFO)
}

/// The command a host process (the compositor) must run to toggle the app.
pub open spec fn host_launch_text() -> Seq<char> {
    "flatpak run --command=cosmic-ext-cheatsheet io.github.michelet76.CosmicExtCheatsheet toggle"@
}

/// The command a host process (the compositor) must run to toggle the app.
pub fn host_launch_command() -> (s: String)
    ensures
        s@ == host_launch_text(),
{
    let mut s = String::from_str("flatpak run --command=");
    s.append(crate::ids::BIN_NAME);
    s.append(" ");
    s.append(crate::ids::APP_ID);
    s.append(" toggle");
    proof {
        reveal_strlit("flatpak run --command=");
        reveal_strlit("cosmic-ext-cheatsheet");
        reveal_strlit(" ");
        reveal_strlit("io.github.michelet76.CosmicExtCheatsheet");
        reveal_strlit(" toggle");
        reveal_strlit("flatpak run --command=cosmic-ext-cheatsheet io.github.michelet76.CosmicExtCheatsheet toggle");
    }
    assert(s@ =~= host_launch_text());
    s
}

/// The program and arguments that run `/bin/sh -c <command>`: on the host
/// through `flatpak-spawn --host` when sandboxed, directly otherwise.
pub open spec fn shell_argv(command: Seq<char>, sandboxed: bool) -> (Seq<char>, Seq<Seq<char>>) {
    if sandboxed {
        ("flatpak-spawn"@, seq!["--host"@, "/bin/sh"@, "-c"@, command])
    } else {
        ("/bin/sh"@, seq!["-c"@, command])
    }
}

/// The program and arguments of a shell command: `/bin/sh -c <command>` on
/// the host when sandboxed (`sandboxed` is what [`active`] answered), and
/// directly otherwise.
pub fn shell_command(command: &str, sandboxed: bool) -> (r: (String, Vec<String>))
    ensures
        r.0@ == shell_argv(command@, sandboxed).0,
        r.1@.map_values(|a: String| a@) == shell_argv(command@, sandboxed).1,
{
    let mut args: Vec<String> = Vec::new();
    let program = if sandboxed {
        args.push(String::from_str("--host"));
        args.push(String::from_str("/bin/sh"));
        String::from_str("flatpak-spawn")
    } else {
        String::from_str("/bin/sh")
    };
    args.push(String::from_str("-c"));
    args.push(String::from_str(command));
    assert(args@.map_values(|a: String| a@) =~= shell_argv(command@, sandboxed).1);
    (program, args)
}

} // verus!
