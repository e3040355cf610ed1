# gpam

Terminal UI for Google Cloud Privileged Access Manager: browse the entitlements
you can request, submit grants with a duration and a justification, and watch
them become active. Approvals that others ask for can be decided on as well.

The program's rules are a verified library; a thin program around it talks to
the terminal, the network and the disk, and does what the library says.

## Layout

- `src/` is the library, verified with Verus.
  - `text`, `numbers`, `offsets`, `order`, `table`: strings, decimal numbers,
    UTF-8 boundaries, sorting and keyed tables.
  - `gcp`: scopes, grant states and names, and what the service's replies become.
  - `backend`: the scopes to search, and the demo.
  - `cache`: the per-account cache, its schema and the laws it obeys.
  - `fuzzy`: ranking entitlements against a query.
  - `refresh`, `poller`: what a re-scan and a poll do to the cache.
  - `auth`, `ipc`, `logs`: the account, the approval socket and the last warning.
  - `tui`: keys, text input, and the screens with what they show.
- `app/` is the program: arguments, SQLite, the service's clients, the socket,
  and drawing.
- `tests/` runs the library on concrete values.

## What is proved

Each executable function states its result over a mathematical model: strings as
sequences of characters, tables as sequences of rows with distinct keys, screens
as records. Functions named `law_...` state what holds of several of them
together, such as that a stored value is read back, that a refresh forgets
neither the last use of an entitlement nor a grant, that Escape takes away one
layer at a time, and that only a valid duration is ever submitted.

The few functions of other crates that the library calls (JSON, fuzzy scoring,
wire durations, the clock) are marked as trusted, each with the contract it is
relied upon for.
