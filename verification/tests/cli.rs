use cosmic_ext_cheatsheet::cli::{conflict_message, registered_message, Args, Cmd};

#[test]
fn as_str_names_each_command() {
    assert_eq!(Cmd::Toggle.as_str(), "toggle");
    assert_eq!(Cmd::Show.as_str(), "show");
    assert_eq!(Cmd::Hide.as_str(), "hide");
    assert_eq!(Cmd::Settings.as_str(), "settings");
    assert_eq!(Cmd::Register { force: true }.as_str(), "register");
    assert_eq!(Cmd::Unregister.as_str(), "unregister");
}

#[test]
fn parse_reads_words_back() {
    for c in [Cmd::Toggle, Cmd::Show, Cmd::Hide, Cmd::Settings, Cmd::Unregister] {
        assert_eq!(Cmd::parse(c.as_str()), Ok(c));
        assert_eq!(c.as_str().parse::<Cmd>(), Ok(c));
    }
    assert_eq!(Cmd::parse("register"), Ok(Cmd::Register { force: false }));
    assert_eq!(Cmd::parse("Toggle"), Err(()));
    assert_eq!(Cmd::parse(""), Err(()));
}

#[test]
fn args_default_to_no_command() {
    let a = Args { cmd: None };
    assert_eq!(a.cmd, None);
}

#[test]
fn cli_messages() {
    assert_eq!(
        conflict_message("Super + Shift + /", "Open a terminal"),
        "Super + Shift + / is already bound to \"Open a terminal\"; use --force to replace it"
    );
    assert_eq!(
        registered_message("Super + Shift + /", "cosmic-ext-cheatsheet toggle"),
        "registered Super + Shift + / -> cosmic-ext-cheatsheet toggle"
    );
}
