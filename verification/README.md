# roxy

A verified library for a small game SDK server and its dispatch server, with the
servers themselves in `app/`.

- `src/` (checked by Verus): routing of SDK requests (`routing`), the account database
  (`account`), password logins and registration (`login`), session-token and combo logins
  (`session`), password and token digests (`digest`), decimal text of numbers (`decimal`),
  text comparison (`text`), the answers (`reply`, `dispatch`) and the properties that hold
  across calls (`laws`).
- `app/`: the HTTP servers, reading and writing `data/accounts.json`, JSON request parsing
  and answer rendering, the clock, and RSA decryption of the login fields with the key in
  `data/sdk_private_key.pem`.
- `tests/`: tests of the library on concrete values.
