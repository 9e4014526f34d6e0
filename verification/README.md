# trycli

TryCli Studio hosts live terminal sandboxes for command-line tools: a user
builds an environment in a container, publishes a snapshot with a Markdown
guide, and others open or embed fresh copies of it.

This crate is the verified core of that service, written in Verus:

- `src/session.rs` — the table of terminal sessions, with its invariant (no
  two sessions share an id) and the laws of its operations (read after write,
  removal, publishing hand-off, builder de-duplication, ghost sweeps).
- `src/embed.rs`, `src/whitelist.rs`, `src/urls.rs` — who may see a project:
  VIP keys, the list of allowed embed locations in normal form, the
  Origin/Referer check, secret embed pages and oEmbed answers.
- `src/terminal.rs`, `src/reaper.rs` — the terminal protocol (resize
  messages, the set-up wizard) and the decisions of the background reaper.
- `src/projects.rs`, `src/admin.rs`, `src/error.rs`, `src/models.rs` — the
  remaining endpoint decisions and the records they exchange.
- `src/client/` — the logic of the browser client: addresses, page states,
  keyboard navigation and the texts it shows.
- `src/text.rs`, `src/rejection.rs` — string helpers with exact
  specifications, and the refusal type shared by the endpoints.

`app/` is the server program around the library: Axum routes, PostgreSQL,
Docker, GitHub sign-in and the WebSocket pump. `tests/` runs the library on
concrete values.
