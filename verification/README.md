# onecipher

A command-line wallet and secret store, with its rules proved in Verus.

- `src/` is the library. Every function in it is verified: what a command
  accepts, what it prints, which error an input gives and with which status the
  program ends, how tokens, patterns, durations and addresses are read, how
  entries are ranked, filtered, audited and repaired, and how the daemon and
  the loopback server answer. Calls into outside crates stand behind small
  functions whose contracts are trusted: hashing and encodings (`hash`,
  `codec`), keys (`curve`), JSON and TOML (`json`, `manifest`), regular
  expressions (`pattern`), time (`time`) and case mapping (`text`).
- `app/` is the program around it: arguments, terminal, files, sockets and
  processes. `app/backend.rs` is the only file that names the vault, signer,
  agent and relay crates.
- `tests/` runs the library from outside.

What holds of the library as a whole stands in public proof functions whose
names begin with `law_`.
