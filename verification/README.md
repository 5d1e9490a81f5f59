# lasso_zen_bre

A local HTTP decision service around the `zen-engine` JDM rules engine, with
its rules proved in Verus.

- `src/` is the verified library: decision identifiers (`ident`), workspace
  paths and decision identities (`paths`), path order (`order`), the workspace
  scan (`scan`), bounded diagnostics (`diagnostics`), the identifier index
  (`index`), the registry and its transactional load (`registry`), the HTTP
  decision rules (`api`), JSON nesting depth (`json`), configuration values and
  parsing (`values`, `config`), and the laws that span them (`laws`). The calls
  into `zen-engine`, `serde_json` and the system clock are trusted items in
  `engine` and `clock`.
- `app/` is the program: environment and command line, the directories on
  disk, the walk over the decisions directory, and the axum HTTP server.
- `tests/` exercises the library on concrete values, including evaluations
  through the engine.

## Engine limits

The service embeds `zen-engine` 0.43.1. That version offers no hook to deny
outbound HTTP from function nodes (its function runtime registers an `http`
module that performs real requests) and no setting for the function-node
timeout, so neither is configured: function nodes can reach the network, and
their running time is bounded only by the engine's own limit and the
service's evaluation timeout. Models are checked at load time by the engine's
graph validation (one input node, no cycle, every edge end present); an
expression that does not compile fails at evaluation with
`evaluation_failed`.

## Configuration paths

Paths in the configuration are kept as text. A `SERVICE_ROOT` or
`ZEN_BRE_DECISIONS_DIR` value, or a working directory, that is not valid
Unicode is refused (`... must be valid Unicode`, or the working directory
counts as unavailable).
