# Plugdeck

A private web deck of small tools: notes in channels, chats with coding agents,
and a video downloader, behind one login. A fourth part audits what a public
repository tracks.

`src/` is the library: the rules of the deck, each with a contract that Verus
proves. It reads no file and opens no socket: what it needs to know of them is
handed to it. The clock and random numbers it takes from other crates, through
`outside`; what is done with them stands in functions that take them as
arguments.

- `text`, `decimal`, `formats`, `html`, `paths`, `sorting`, `json`, `tables`, `web`,
  `times`: the vocabulary.
- `config`, `auth`: settings, passwords and sessions.
- `codex`, `codex_projects`, `codex_usage`, `codex_reset_ledger`: saved
  conversations, usage limits, and a ledger that estimates when reset credits
  expire.
- `agents`, `agent_jobs`, `messages`: chats, their commands and their jobs.
- `downloads`, `notes`, `pages`, `audit`, `db_migrations`: the other tools, the
  pages around them, and the steps of the database's schema.
- `outside`: every call into another crate, with what is taken for granted of it.

`app/` is the program around it: the server, SQLite, processes and files.
`tests/` runs the library.
