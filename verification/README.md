# bench_clients

Builds, starts, watches, unwinds and stops Ethereum execution clients (geth and reth) so that they
can be benchmarked against each other.

* `src/` is the library. It decides: which words a command line holds, where a binary is cached,
  what to do next when a step of building, starting, waiting, unwinding or stopping came out one
  way or the other. It is verified with [Verus](https://github.com/verus-lang/verus).
* `app/` carries the decisions out: it runs processes, asks nodes over JSON-RPC and touches files.
* `tests/` runs the library on concrete values.

An operation is planned by a method of `GethClient` or `RethClient`. The plan knows its first step,
and `next` gives the step that follows what came of the last one. What can be said of whole runs of
a plan is proved next to it, in the functions whose names begin with `law_`.

`src/outside.rs` and `src/entropy.rs` hold everything that is taken on trust of other crates and of
the standard library. Paths are text in the form that the platform has for them. Chains are those of
`alloy_chains`, whose `Chain` is also the one that `reth_chainspec` exports.
