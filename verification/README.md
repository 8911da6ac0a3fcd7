# ycallr

A command-line client for HTTP APIs described by installed YAML profiles
(or imported OpenAPI documents), with secrets kept out of the process
environment: `--env-file`s, an OS-keyring / file secret store, and hidden
prompts.

## Layout

- `src/` — the verified library (Verus). It holds the command-line logic:
  reading the top-level request and an API's words (`plan`), flags and exit
  codes (`cli`), resolving command paths and "did you mean" suggestions
  (`catalog`, `suggest`), the discovery views and help pages (`discovery`,
  `help`), response rendering (`output`), env files and secret precedence
  (`env_secrets`), the secret store's names, manifest and keyring use
  (`secrets`, `secret_cmd`), the OS-keyring session that records each
  request made of the keyring (`os_keyring`), and the string and map helpers they rest on
  (`text`, `strmap`). Each public function states its result in its
  contract, except where an outside service decides (the OS keyring, what a
  reader yields): there the contract states what holds whatever the service
  answers, and a verified function that takes the answers as arguments fixes
  the result exactly. The laws that span functions are public proof functions.
- `app/` — the program around it: argument handling, file and terminal I/O,
  logging, and the bindings to the compiled call engine.
- `tests/` — tests of the library on concrete values.
