# tremolite

The core of an AI companion agent ("葵"): the module registry and its
lifecycle events, the service registry of external module processes, the
prompt builder and the tool-call loop, provider routing, configuration with
`${VAR}` substitution, cron scheduling, delegation of tasks and child
sessions, webhooks, chat channels (QQ gateway framing, HTTP and WebSocket
messages), sessions and the terminal UI's key handling.

## Layout

- `src/` is the library, written in Verus: every function carries a
  `requires`/`ensures` contract over spec functions and views, and Verus
  proves it. Public proof functions (`law_*`) state properties that span
  several calls, such as the registries keeping their first providers.
  Calls into outside crates (`serde_json` parsing, `rand`, the clock) sit
  behind small `#[verifier::external_body]` wrappers whose doc comments say
  what their contracts claim.
- `tests/` runs the library on concrete inputs.
- `app/` is the program around it: command-line handling, files, HTTP and
  WebSocket I/O, the terminal, processes, and the loops that feed events to
  the library's state machines.
