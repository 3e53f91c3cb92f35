# network_core

The decision logic of a native peer-to-peer network core, verified with Verus:

- `src/realtime/`: realtime (WebRTC) signaling sessions and their replay
  guards, screen-share consent checks, the provisional bindings that hold an
  Offer until the user's REQUEST pairs with it, claims (and the order of a
  claim's steps) and rejections, and the Relay V2 routing of realtime signals.
- `src/realtime_media.rs`: opaque native media endpoint leases bound to a
  runtime and session generation.
- `src/relay/`: Relay data-plane envelopes, the E2EE handshake bookkeeping,
  reconnect and connect-failure decisions, and Relay file transfer (offer
  envelopes and metadata, manifest hash, acceptance, resume, and the sender's
  step machine).
- `src/runtime.rs`: the runtime lifecycle, route authorization and connect
  decisions.
- `src/outside.rs`: the calls into `hex`, `sha2`, `base64`, `rand` and std
  whose contracts the proofs rely on.

`tests/` exercises the library on concrete values. `app/` holds what cannot be
verified: the tokio runtime facade, clock, environment and file access, JSON
encodings, the background loops and the drivers that run a claim and a Relay
send, each handing its results to the library.
