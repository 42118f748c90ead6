# ZeroPass

A password manager. The library under `src/` holds what the program decides and
computes, written in Verus with contracts that the verifier proves; `app/` holds
the window, the files, the network and the clipboard around it.

| Module | What it holds |
| --- | --- |
| `text` | white space, trimming, search, splitting, decimal numbers, case |
| `totp` | base32 secrets and one-time codes |
| `model` | entries, notes, vaults, encrypted files, errors, preferences |
| `codec`, `crypto` | base64, key derivation, sealing and opening a vault |
| `generator` | passwords and their strength |
| `update` | versions, releases and what to offer |
| `display` | what cards, badges, banners and toasts show |
| `fields`, `modal` | form fields and dialogs |
| `listing` | which entries and notes are shown, in which order |
| `vault`, `import` | changes to the contents of a vault |
| `registry` | the known vaults |
| `toast`, `session`, `actions`, `manage`, `frame` | the state of the program and its transitions |

Every transition of the state machine is stated over the views of the state: a
method of `VaultGui` leaves the state that a spec function of the same event
computes from the state before. What relates several of them is proved in the
functions whose names start with `law_`.

The proofs rest on the contracts of the functions marked
`#[verifier::external_body]`, whose doc comments say what is believed of Argon2id,
XChaCha20-Poly1305, HMAC-SHA-1, base64, randomness, wiping, the clock and the case
tables of Unicode.

No vault data leaves the computer. The only network call is the version check,
which asks GitHub for the list of releases.

The program looks for its logo, fonts and sound in a directory `assets` beside
the executable and does without what it does not find there.
