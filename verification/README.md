# conduwuit_core

The request-handling logic of a Matrix homeserver, written in Verus and
proved against its contracts: what the client and federation endpoints check
before they act, which events and state they return, how pages and tokens
are formed, how push rules, tags and JSON objects change, and the module
reload policy of the server binary.

The endpoints themselves read and write the database, talk to other servers
and hold locks; here each of them is taken apart into the decisions it makes,
as functions from plain values (strings, numbers, vectors, the library's own
types) to plain values. Where a decision waits on outside work (a lookup, a
remote server's answer), it is a small state machine that names the next
step and takes the outcome back (`membership::join_attempt`,
`missing_events::MissingEventsWalk`).

## Layout

- `src/` — the verified library, one module per area:
  `sync`, `account`, `session`, `room`, `membership`, `federation`,
  `transaction`, `pdu`, `directory`, `search`, `history`, `keys`, `push_rules`,
  `profile`, `events`, `alias`, `media`, `query`, `turn`, `report`,
  `account_data`, `appservice`, `missing_events`, `mods`, `cli`,
  `room_version`, `text`, `error`.
- `tests/` — tests of the library on concrete values, run with the outside
  crates linked.
- `app/` — the command-line entry.

Calls into outside crates (`ruma` identifier parsing, `serde_json` reading
of PDUs, `itertools` grouping, `argon2`, `jsonwebtoken`, `regex`,
`hmac`/`sha1`, `base64`, `rand`, `clap`) go through
small trusted wrappers whose doc comments say what their contracts claim.
