# tars_provider

Providers of large language models behind one set of types: the HTTP APIs of
Anthropic, OpenAI (and the local servers that speak its protocol) and Google, command-line
agents run as confined child processes, a daemon that serves many calls at once, and two
providers for tests, one with canned answers and one that records and replays.

The library is written in Verus. Every function states what it returns or changes, and
Verus proves it. What the library takes from outside crates stands behind declarations
with their own contracts: JSON from `serde_json`, URLs from `url`, header values and
status lines from `reqwest`.

## Layout

- `src/json.rs`, `src/members.rs`, `src/reasons.rs`, `src/text.rs` – JSON values, JSON
  texts taken apart, what is said of JSON that cannot be read, and plain texts.
- `src/types.rs`, `src/capabilities.rs`, `src/batch.rs` – requests, events, replies,
  errors, what a provider can do, batch jobs.
- `src/auth.rs` – credentials: where they come from, and how they stay out of logs.
- `src/http_base.rs`, `src/exchange.rs`, `src/tool_buffer.rs`, `src/stream.rs` – what the
  HTTP providers share: URLs, errors, calls and replies, tool calls in pieces.
- `src/backends/` – one module for each provider. Under `cli/`, what the command-line
  programs share; `cassette/` records and replays.
- `app/` – the edges: network, processes, files, environment, clocks. It performs what
  the library decides and hands back what came of it.
- `tests/` – runs the library on concrete values.

## Reading the contracts

A type that holds texts has a view (`@`) with sequences of characters in their place,
and contracts speak of views. A function that talks to the outside world is split: one
function makes the call as a value, another reads the reply, and both have exact
contracts. Proof functions whose names begin with `law_` state what holds of several
functions together.
