# ctxd

ctxd is a context substrate for AI agents: an append-only log of events that agents
write to and read from under capability tokens, with federation between daemons and a
one-command installation.

This crate is its verified core. Every function under `src/` states in a Verus contract
what it returns or changes, and Verus proves it.

## Layout

| module | what it holds |
| --- | --- |
| `cap` | capability tokens: minting, attenuation, third-party blocks, verification, and the caveats that need state (rates, budgets, approvals) |
| `federation` | which peers are accepted, what is replayed and backfilled, what is forwarded |
| `protocol`, `query` | the decisions of the wire protocol, and the event query language |
| `serve`, `minimal`, `mcp_proxy`, `pidfile` | the daemon's startup as a state machine, the minimal HTTP API, the MCP relay, and the pidfile |
| `rate_limit`, `storage_selector`, `embedder`, `cli` | rate windows, backend selection, and the command line's parsing |
| `onboard` | onboarding and offboarding: capability files, client configuration, services, seeds, snapshots, the doctor, and the messages of the pipeline |
| `json`, `text`, `textmap`, `path`, `time`, `event` | the values that the rest is stated over |
| `outside` | functions of outside crates that the library calls, with what it relies on |

Laws that relate several functions are public proof functions whose names begin with
`law_`.

## Trust

Calls into outside crates stand behind small wrappers marked
`#[verifier::external_body]`, in `outside`, `cap::biscuit`, `cap::error` and
`rate_limit`. Each says in its documentation what is relied on. A token is verified by
the Biscuit library within a time slice, so a verification may end unsettled. Otherwise
what a token permits is accepted, and each contract says what an acceptance, a denial
and a refusal mean.

## The program

`app/` is the `ctxd` program: argument handling, files, sockets, processes and the async
tasks. It performs what the library decides. It links the workspace's own crates for
storage, HTTP, MCP, embeddings and adapters (`ctxd-store`, `ctxd-core`, `ctxd-wire`,
`ctxd-http`, `ctxd-mcp`, `ctxd-dashboard`, `ctxd-embed`, `ctxd-adapter-*`), which the
library does not need.
