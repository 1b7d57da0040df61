# granola

A library for Granola meeting notes, verified with Verus, with a terminal
program and an MCP server around it.

The library decides and computes; it does no I/O. Fetching, logging in and
calling the service are state machines: each says what it waits for, and takes
in what happened.

| Module | What it holds |
|---|---|
| `text`, `json`, `wire`, `frames` | texts, documents, and how `serde_json` reads them, whole or member by member |
| `prosemirror`, `notes` | rich text as markdown, and the two kinds of notes |
| `attribution`, `meetings` | who spoke, summaries, contexts, and short ids |
| `dates`, `query`, `merge` | date specs, which meetings a list shows, and how all of them are fetched |
| `auth`, `storage`, `desktop`, `session` | credentials: their files, their encryption, import and renewal |
| `api`, `flow`, `codes`, `report` | requests, retries, recovery, and what is reported of credentials |
| `args`, `mcp`, `cli`, `output` | the server's arguments and answers, and what the terminal shows |

A function's contract is stated over views and spec functions of its module.
Proof functions whose names begin with `law_` state what holds across functions.
What an outside crate does stands behind a wrapper whose doc comment names the
outside function and says what is claimed of it.

`app/` is the program: the keychain, files, HTTP, the terminal and the protocol.
`tests/` runs the library from outside.
