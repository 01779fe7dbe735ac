# jcode-app-core

Per-session settings, text mangling and task delegation for a coding agent, written in Verus.

- `src/` is the library. Every function states what it returns or changes, and Verus proves it;
  the public proof functions named `law_*` state what holds across functions.
- `tests/` runs the library on concrete values.
- `app/` is ordinary Rust around it: the stores that sessions share, the configuration file, the
  server's socket, and the tools as the agent calls them.

What the library takes on trust is named where it is declared: `serde_json` for parsing JSON
(`json.rs`), and a few operations of the standard library (`String::push`,
`char::is_alphanumeric`, the hashing of strings, and, through `vstd`, its collections).
