# discord_privacy

A verified core for a desktop utility that cleans up a Discord account:
bulk deletion of the user's messages (with a dry run that counts exactly
what a real run deletes), leaving guilds (never owned ones), removing
relationships, wiping profile fields, exporting history, and keeping the
user's tokens and cached messages encrypted on the local machine.

- `src/` is the library, written in Verus. Every function there carries a
  contract that Verus proves: the rate-limit engine and its back-off, the
  routes that key its buckets, the purge's decisions, the sign-in
  handshakes (token, OAuth redirect, local RPC, QR gateway), the vault's key
  handling, the local cache, the data-package discovery and the forensic
  helpers. Calls into other crates (cryptography, URL parsing, regular
  expressions, time parsing, randomness) go through small trusted wrappers
  whose contracts say what those crates document.
- `tests/` runs the library on concrete values.
- `app/` is the program around it: the network, the keychain, the disk,
  SQLite, processes and the command line.
