# COSMIC keyboard-shortcut cheatsheet, verified

An on-demand cheatsheet of the shortcuts the COSMIC compositor has configured,
with a settings page that registers its own global shortcut in the user's
custom shortcuts. The library in `src/` holds the decisions and is proved
with Verus; `app/` is the COSMIC application around it.

## Layout

- `src/shortcuts/`: shortcut tables, actions and key names; the cheatsheet
  built from a table (sections, rows, labels, key chips) and its search.
  `laws.rs` states what every cheatsheet looks like.
- `src/registration.rs`: what the custom shortcuts become when the
  cheatsheet's entry is registered, checked or removed, with the laws that
  registering binds the combination and leaves other entries alone.
- `src/app_state.rs`: the application as a state machine. Each event
  (show, hide, key press, settings message, D-Bus activation, ...) updates
  the state and returns the effects to carry out, in order.
- `src/view/`: what the overlay and the settings page show, and how
  categories are laid out in columns.
- `src/config.rs`, `src/keycapture.rs`, `src/cli.rs`, `src/sandbox.rs`:
  the app's configuration and typed combinations, recorded key presses, the
  command line, and Flatpak commands.
- `src/text.rs`, `src/path.rs`, `src/seqs.rs`: text, Unix paths, and facts
  about filtered sequences.
- `app/`: the COSMIC event loop that performs the effects, the widgets, and
  reading and writing the configuration files.
- `tests/`: concrete scenarios for every module.
