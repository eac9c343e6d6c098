# freesignal

End-to-end encrypted messaging, with its behaviour stated in contracts and
proved by Verus.

- `src/` is the verified library.
  - `x3dh`: the key agreement that a session starts from.
  - `double_ratchet`: sessions, in which every message has a key of its own.
    `model` says what a session does as functions of its state, `steps` and
    `session` do it, `laws` says what holds of two sessions that talk to each
    other, and `conversation` what holds of all that they say.
  - `header`, `message`: the encryption of headers and payloads.
  - `node`: the decisions of a node that relays encrypted messages.
  - `store`: what a user of the library provides to keep keys and sessions. A
    store may answer as it likes; the contracts speak of what it is asked.
  - `primitives`: the outside functions that the library rests on, and what is
    believed of them.
- `app/` serves a node over HTTP.
- `tests/` runs the library on concrete values.
