# prover_ffi

The core of an interface through which a mobile host proves Starknet transactions, verified with
Verus. The host hands in C strings and a log callback; it gets a status code or the JSON of a
verified result.

`src/` decides and computes, with every function verified against its contract:

- `input`, `utf8`, `c_string`, `log`: what the host's strings are worth, and what it is sent.
- `call`: what a whole call returns.
- `offline`, `live`, `proof_run`, `request`, `rpc_url`: sessions as state machines. A step names the
  log lines and the next action; the outcome of the action comes back as an event.
- `result`, `base64`, `felt`: the result and its JSON.
- `runtime`, `memory_mode`, `walk`, `cleanup`, `megabytes`: what happens around a proof.
- `proof_laws`, `offline_laws`, `live_laws`, `result_laws`: what holds of whole sessions and of the
  JSON. Laws on one module stand in that module.

`app/` carries the actions out: the C entry points, tracing, files, the asynchronous runtime. The
proving engine itself (block execution, prover, verifier, replay server) is linked behind the trait
`Engine` in `app/engine.rs`.

Assumed of other code, and stated where it is called: `std::str::from_utf8`, `String::push`,
`url::Url::parse`, `serde_json::to_string` on plain strings, and the hexadecimal text of a
`starknet_types_core` field element.
