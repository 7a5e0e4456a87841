# voxtype (verified core)

The configuration side of voxtype, a push-to-talk dictation tool for
Wayland desktops, with its logic proved by Verus.

`src/` is the library; every function in it carries a contract:

- `post_process`: the action headers (`<<<VOXTYPE:BACKSPACE=N>>>`,
  `<<<VOXTYPE:ENTER>>>`) that a post-processing command may put in front of
  its output, and what the command's outcome means for the transcript.
- `compositor_bindings`: finding `voxtype` keybindings in Hyprland, Sway and
  Niri config text, and suggesting the ones that are missing.
- `tui`: the settings sections of the terminal UI: what each reads from the
  config, what it writes back, and how keys change it.
- `osd`: the on-screen display's position setting and the ring buffer of
  audio frames it draws from.
- `text`: the string functions the rest is written with.

Each module states its laws as public proof functions named `law_*`.

`app/` is the program around the library: the `voxtype-osd` binary, the
config file I/O, the ratatui drawing, the post-processing process runner and
the discovery of compositor config files. It reads the config file with
`toml_edit` and applies the library's `config_edits` to it, so that saving a
section keeps the file's comments and layout. `tests/` runs the library on
concrete inputs.
