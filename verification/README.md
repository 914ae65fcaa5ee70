# pypes core

The verified core of an agent runner whose agents carry stored actions:
webhooks that POST JSON, and cron actions that fire a wrapped action on a
schedule.

- `src/` is the library, verified with Verus: cron expression parsing
  (5-, 6- and 7-field forms), next-fire computation, an in-process scheduler
  driven by a caller-supplied clock, the decision of what running each stored
  action comes to, header checks, capped capture of response bodies and the
  outcome of a webhook response. The `cron`, `chrono`, `reqwest` (its `http`
  header types) and `serde_json` crates are reached through a few trusted
  wrappers whose contracts are stated where they are declared.
- Webhooks are delivered by a client with a 30-second timeout
  (`WEBHOOK_TIMEOUT_SECS`); a timed-out exchange is `WebhookError::Timeout`,
  any other failed exchange `WebhookError::Transport`.
- `app/` is the runtime around it: JSON decoding of stored actions, HTTP
  delivery, the wall clock, the background scheduler loop, the `pickledb`
  agents store and the `axum` HTTP API.
- `tests/` exercises the library on concrete values.
