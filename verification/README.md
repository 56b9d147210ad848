# aerowm

The window-management core of AeroWM, a tiling Wayland compositor, with
its behaviour stated as Verus contracts and proved.

- `src/` — the verified library: geometry and layouts (`layout`,
  `layouts`), workspaces and the window-manager model (`workspace`, `wm`),
  window rules (`rules`), key bindings (`input`), pointer resizing
  (`grab`), session persistence (`session`), IPC payloads and command
  handling (`ipc`), the status bar's configuration and drawing plan
  (`bar`, `canvas`), file locations (`paths`), monitor bring-up choices
  (`outputs`), pointer hit-testing of layer surfaces (`layers`) and
  backend selection (`backend`).
- `tests/` — tests of the library on concrete values.
- `app/` — the code around it: the `aerowm-ctl` command-line client,
  serde representations, the IPC client and server, the Luau scripting
  engine, the bar's renderer and the session file, environment and socket
  handling.
