# droidlog

The logic of an Android log collector, as a verified library: finding adb and
recovering its server, listing and probing devices, resolving an application to its
processes, building the commands of each log source, parsing what they print,
filtering and buffering records, and collecting crash, boot and recovery logs.

- `src/` is the library. Every function states its result over mathematical views of
  the types. The public proof functions named `law_...` state what relates several
  functions.
- `tests/` runs the library on concrete values.
- `app/` is the desktop application: it runs processes, reads pipes, writes files,
  sends events to the windows, and asks the library what to do next.

| Module | What it decides |
| --- | --- |
| `text` | characters, lines, words, numbers, ordered and unique lists |
| `parser`, `source` | the grammars of logcat and the kernel; the commands that print them |
| `filter`, `crash` | which records are kept; which of them are failures |
| `ring`, `state`, `process` | bounded buffers, sessions, batching |
| `executor`, `adb`, `device` | command lines, the adb server, devices, applications |
| `collect`, `export` | probe runs and their reports; safe file names |

Where the library calls into std or another crate, the call stands behind an item
whose documentation says what is taken for granted.
