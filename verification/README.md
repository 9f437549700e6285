# Murmur

Voice dictation for the desktop: hold Control, speak, release to insert, Esc to cancel.

`src/` is the library. Every function in it carries a contract that Verus proves, and the
public proof functions beside them state what holds across several calls: a cancelled
attempt is never inserted, a clipboard is restored only over our own write, a paste chord is
asked for at most once, nothing is lost where a stream of samples is cut into blocks.

| Module | What it decides |
| --- | --- |
| `dictation`, `space_hotkey` | the phases of an attempt, and what a held key means |
| `capture`, `resample`, `streaming` | samples on their way from the microphone to the provider |
| `transcript` | which utterances are committed |
| `insertion`, `local_delivery`, `local_clipboard` | what may go into which field, and how the clipboard comes back |
| `remote`, `remote_review`, `remote_clipboard` | dictation into another machine's window |
| `indicator` | what the on-screen pill shows |
| `config` | where the provider's key comes from |
| `platform` | the decisions of the Linux and macOS desktops |
| `json`, `text` | values and characters |

What the library has from outside is behind a few wrappers whose contracts are believed, not
proved: `serde_json` in `json`, `dotenvy` and the parts of a `std::path::Path` in `config`,
`rtrb` in `capture`, and `str::to_lowercase` in `platform::macos_local_clipboard`. Each says
what it claims.

`app/` is the program around the library: windows, sockets, devices, files, and arithmetic on
floating-point samples. `tests/` runs the library.
