# mxd transport adapter

The Hotline transport layer of the `mxd` server as a Verus-verified
library: transaction framing and fragment reassembly, the parameter block,
the message-assembly payloads used by the Wireframe transport, the
12-byte handshake, XOR text-field compatibility and the client
compatibility policy, with their contracts and the laws that connect them.

- `src/` — the verified library. `transaction`, `field_id` and `params`
  hold the wire formats; `codec`, `framed` and `frame` the framing and
  reassembly; `message_assembly` the assembly payloads; `protocol`,
  `preamble` and `connection` the handshake; `compat`, `compat_policy`,
  `compat_layer`, `login_reply_augmenter`, `auth_strategy` and `router`
  the compatibility hooks; `routes` and `connection_handler` the error
  replies; `harness` the value types of the test harness.
- `app/` — the runtime glue: Tokio and Wireframe codec trait impls,
  bincode decoding, handshake reply hooks and the task-local connection
  context.
- `tests/` — tests run against the compiled library.
