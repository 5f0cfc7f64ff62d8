# xin

`xin` is an agent-first command line client for JMAP email (Fastmail first). Its output
is a stable JSON envelope; `--plain` gives a human-readable view.

This crate is written in Verus. The library under `src/` holds the logic of the
commands (what to ask the server for, how to decide, and what to report), each part
with a contract that Verus proves:

- `sugar`: the search query language, lexed and compiled into a JMAP filter.
- `mailbox`, `organize`: finding mailboxes by id, role or name, the plans that
  archive, trash, mark, modify and delete emails and threads, and the `Email/set`
  patch that applies a plan.
- `compose`: identities, reply subjects, threading headers and recipients, message
  bodies and the checks and plans of the draft commands.
- `headers`, `header_dict`, `plain`, `stream`: the properties `get` asks for, the
  `--headers` dictionary, the plain-text views, and the lines `watch` prints.
- `paging`: page tokens for search and history (a token names exactly one page), and
  the steps of `watch`.
- `config`, `app_config`: resolving the account, server and credentials from the
  environment, the configuration file and secret files.
- `links`, `time`, `paths`: URLs, dates and paths, through the `url`, `urlencoding`,
  `chrono` and standard library calls they need.
- `feature`: the pieces of the feature-test runner (substitution, assertions).
- `text`, `pieces`, `seqs`: verified text and sequence helpers.

`app/` is the program around it: argument parsing with `clap`, HTTP and JMAP calls with
`reqwest`, files, the terminal, and the JSON output with `serde_json`. It reads the
server's JSON into the library's plain values, and writes the library's results back
as JSON. Reading a page token's JSON back (a `serde` parse) is done there too.
