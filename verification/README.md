# qomm-transport

The transport of a private quoting venue: sealed order slots, pre-trade
authority, resident multi-party quotes, and the committee that proves and
settles a trade.

- `src/` is the library. Every function states what it returns and changes, and
  Verus proves it. `codec_laws`, `order_laws`, `proof_laws`, `quote_laws`,
  `roles_laws` and `signing_laws` state what holds across functions; other laws
  stand beside the functions they speak of.
- `app/` is the process side: files, sockets, threads, child processes, and the
  traits through which a deployment brings its proof arithmetic and its keys.
- `tests/` runs the library with the outside crates linked.

What is believed without proof are the calls into outside crates: SHA-256,
hexadecimal and base64 text, JSON, Ristretto points and scalars, and Ed25519
signatures. Each has one small function with a contract, in `digest`, `text`,
`json`, `group`, `decimal`, `sharing`, `proof_config` and `proof_peers`.

A proof party keeps what it must not forget before it answers. Closures and
traits stand for what a deployment computes: writing the state, opening a wire,
assembling a proof, signing. A contract says what such a function is asked, and
what comes of each answer, so what is proved holds for every answer.

A settlement is one function, `settlement_run::prove_product_settlement`: the
payment and its authorization, the committee's signature, the three further
proofs, the openings and the receipts of the nodes. A proof party is started by
`proof_start` for the first time and by `proof_restore` from what it kept.
