# ccomidi

The engine of a MIDI plugin that turns rows of settings into Control Change and
Program Change events, verified with Verus.

- `src/` is the library. `sender` decides what to emit in each audio block;
  `model` says in mathematical terms what that is, and `sender_laws` states what
  follows from it. `encode` turns a row into messages. `plugin` and `params` hold
  what happens around the sender in one audio block. `voicegroup`, `instrument`,
  `state_path` and `editor` deal with the voicegroup state file and the editor's
  state, and `install` with the command that installs the plugin.
- `app/` connects the library to the plugin host, the window toolkit, the file
  system and the command line.
- `tests/` runs the library.

Four functions of the standard library are trusted to behave as their contracts
say: `str::trim`, `str::to_lowercase`, `Path::parent` and `==` on paths. A sink
for events outside the verified code is trusted to keep what it is handed.
