# rpc_bench

A Solana RPC landing-rate benchmark. Each round it builds one swap
transaction per sender on a durable nonce, posts it to every URL of that
sender, and afterwards counts, per sender, how many of the sent transactions
landed.

- `src/` is the verified library (Verus): reading the Jupiter instructions,
  the exact instruction list of the benchmark transaction, compiling and
  signing it and its wire bytes, standard base64, the round schedule and
  serving order, round-robin nonce
  accounts and the decoding of their data, lookup table decoding, the
  requests and JSON-RPC body for each sender, the signature tracker, the
  status batches, and the landed tallies and their ranking.
- `app/` is the program around it: configuration file, HTTP and RPC calls,
  the async round loop, and the floating-point summary.
- `tests/` exercises the library on concrete values.
