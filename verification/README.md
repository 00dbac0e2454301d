# agnt

A coding agent's core, verified with Verus: the file tools (hashline
anchored reading and editing), the provider/model registry with API-key and
OAuth PKCE credentials, the Responses API request, headers and stream-event
mapping, the agent turn's decisions, sessions, and the terminal view's
layout, typeahead and wrapping.

- `src/` is the verified library. Each public function states its result
  in `ensures`; laws relating several functions are public proof functions
  named `law_*`. Calls into outside crates (`url`, `base64`, `sha2`, `ring`,
  `rand`, `similar`, `handlebars`, `serde_json`, `unicode-width`, `ignore`) go through
  small trusted wrappers whose contracts say what the crates document.
- `app/` connects the library to the file system, processes, SQLite, the OS
  keyring, the environment and the command line; it holds the serde forms of
  the library's types.
- `tests/` exercises the library on concrete values.
