# tsoracle

The client side and the node tooling of a timestamp oracle, as a library whose functions carry
`requires` / `ensures` contracts proved by Verus, with a thin program around it.

- `src/` holds the library. A leader-following client: retry policy, budgets, channel pool, leader
  hints, the attempt and retry state machines, and the driver that coalesces requests. The record
  codecs, the raft toolkit (`toolkit/`) and the decisions of the node program (`node/`).
- Modules whose names end in `_laws`, and proof functions whose names begin with `law_`, state what
  holds of several functions together.
- `app/` holds the network, the clock, the command line and the files. It performs what the library
  decides and hands back what came of it.
- `tests/` runs the library on concrete values.

Times are passed in: no function of the library reads a clock. What the library takes from other
crates without proof stands in functions marked `external_body`, each with a comment that says what
is claimed.
