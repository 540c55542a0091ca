# logos_accounts

Accounts on provenance logs, written and proved in Verus. An account is a provenance log under a
verifiable long-lived address (VLAD). Its keys live in a software wallet or on a Keycard. The owner
signs with `/pubkey`, and can delegate branches such as `/apps/chat/` to other keys, whose holders
update their branch by prepare, sign, commit.

## Layout

- `src/` is the library. Every function is verified against its contract, but for the wrappers
  named under "What is trusted".
  - `api`, `challenge`: the service of one account, with its pending challenges
  - `cache`, `module`: many accounts by VLAD hash, with JSON replies and events
  - `history`: what holds across calls once entries were appended
  - `delegation`, `entry_update`, `config`, `account_ops`, `ops`: the policy of updates
  - `values`, `plog`, `key`: the data of a log, and what is read from it
  - `wallet`, `path_map`, `keycard_lifecycle`, `binding`, `ephemeral_open`: keys and cards
  - `encoding`, `convert`, `vlad_hash`, `json`, `storage`, `error`: formats and errors
  - `table`, `text`, `model`: what the rest is built on
- `tests/` runs the library.
- `app/` runs it in a host: JSON decoding, card and log access, locks and the runtime.

## How outside work comes in

The library works on plain values. Opening, serializing, signing and appending entries is done by
a log implementation and a wallet, and card commands by a card. A call that needs them comes in two
parts: the first checks the request and says what is to be done, the second takes over what came of
it, as a `Result`. Contracts speak of both parts for every outcome. What the log implementation
decodes or parses, key paths among it, comes in together with the outcome, and its complaints are
passed on in its own words.

## What is trusted

Contracts of the functions that the library calls outside itself are believed, not proved. Each is
stated at its wrapper: multibase encoding and decoding, SHA-256, BIP32 path parsing and display,
JSON string quoting, the system's random bytes, and two functions of the standard library. A path
of the standard library is carried, with nothing claimed of it.

## Laws

Properties that span several functions are public proof functions named `law_*`, next to what they
speak of. Those of `history` take as a premise that the log implementation appends entries as it
should: one more verified entry, with the given locks, and the given mutations applied.
