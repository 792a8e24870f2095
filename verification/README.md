# netover

The host side of a remote-desktop bridge. A controller pairs with the host through a
signalling server (an X25519 exchange from which both ends derive the same HMAC key),
and later connects to it: the host challenges the controller with a random nonce,
accepts it only when it answers with the HMAC of that nonce under the paired key, and
then streams its screen over WebRTC while injecting the controller's input.

## Layout

- `src/` — the verified library (Verus).
  - `crypto`, `codec`: hashing, key derivation and base64, through trusted wrappers
    whose results are named; the salt and fingerprint computations are verified.
  - `keystore`: the table of paired controllers, with distinct ids as a type invariant.
  - `pairing`: the pairing session and its reaction to each server message.
  - `launching`: the launch handshake as a state machine, with its laws.
  - `input`: decoding of controller commands into input events.
  - `screen`, `capture`: screens, the screen manager, BGRA to I420 conversion, row
    unpadding, capture start guards and audio frame cutting.
  - `signal`, `ws`, `config`, `text`: protocol messages, socket frames, settings and
    string helpers.
  - `laws`: properties that span pairing, the key store and the launch.
- `tests/` — tests of the library on concrete values.
- `app/` — the runtime around the library: WebSocket and WebRTC connections, the key
  and settings files, the credential store and the platform backends.
