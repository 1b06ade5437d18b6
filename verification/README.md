# cc_switch

Routes the requests of an app to one of its providers, keeps a circuit breaker
per app and provider, and decides what the remote management API answers.

The library under `src/` is written in Verus. Every function states what it
returns or changes, and Verus proves it. What the library takes from outside is
believed and not proved: the clock of the standard library, the lower case of a
text, the local time from `chrono`, and reading JSON with `serde_json`. These
items stand in `clock`, `text` and `settings`, each with a comment that says what
it claims.

| module | what it holds |
| --- | --- |
| `circuit_breaker` | the breaker of one provider: closed, open, half open |
| `circuit_breaker_laws` | what holds of a breaker over several operations |
| `error_rate` | the rate of failures above which a breaker opens, as an exact fraction |
| `provider_router` | the breakers of all apps and providers, by key |
| `provider_selection` | which providers a request may be sent to, in which order |
| `provider_router_laws` | what holds of the router and of its selections |
| `remote`, `reply` | the decisions of the management API and its answers |
| `reorder` | moving a provider in the list |
| `failover` | switching automatic failover on and off, step by step |
| `provider_test` | testing the connection to a provider, step by step |
| `remote_usage` | the usage of all providers as one list |
| `events` | the stream of events that a browser listens to |
| `icons` | icons in the colour that is asked for |
| `usage_api`, `usage_summary`, `server` | the usage API and the life of its server |
| `provider`, `settings`, `text`, `clock` | what the others stand on |

`app/` is ordinary Rust around the library: HTTP endpoints, JSON, the server
task, and a router that tasks can share. It reads the store, does what a step of
the library asks for, and hands back what came of it.

`tests/` runs the library on concrete values.
