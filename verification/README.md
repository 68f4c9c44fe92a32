# Alloy Studio backend

The backend of Alloy Studio, an editor for FIRST Tech Challenge robotics teams:
text buffers with undo/redo, documents and workspace search, Gradle build
output parsing and repair suggestions, FTC project and OpMode discovery,
hardware-map declarations, git status/diff/blame records and conflict
resolution, language-server framing and routing, the file-system proxy
protocol, and the robot telemetry stream.

## Layout

- `src/` — the library, written in Verus. Verus checks every function in it;
  the public ones carry `requires`/`ensures` contracts over spec functions and
  views, and the laws that relate several functions are public proof
  functions. Calls into outside crates and into the parts of std that vstd
  does not specify (`regex`, `ropey`, `bytes`, `dashmap`, `sha2`,
  `serde_json`, `which`, `tree-sitter`, `tokio`'s one-shot channels,
  `std::path`) go through small trusted wrappers: Verus believes their
  contracts, and their doc comments say what is assumed.
- `tests/` — tests of the library's public functions.
- `app/` — the `alloy` program: command line, logging, the tokio runtime,
  the IPC and telemetry servers, language-server processes, Gradle processes,
  git through libgit2, and every file-system access. It reads and writes; the
  library decides.
