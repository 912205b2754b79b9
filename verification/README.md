# zeroclaw

Parts of the ZeroClaw agent runtime as a library whose behaviour is stated in
contracts and proved with Verus.

- `src/log`: tracing calls become structured log events, and log events become
  observer events.
- `src/agents.rs`, `src/sessions.rs`, `src/config.rs`: agents are created,
  deleted and listed; running sessions hold a deletion back.
- `src/policy.rs`, `src/subagent.rs`: sub-agents are allowed no more than their
  parent. What a policy goes beyond another in is found out by the caller.
- `src/skills`: skills are listed, shown, patched, added to and archived;
  bundles of skills have directories of their own.
- `src/dream`: dream cycles are planned and reported.
- `src/onboarding.rs`: the sections of the onboarding wizard.
- `src/text.rs`, `src/order.rs`, `src/path.rs`, `src/json.rs`, `src/alias.rs`,
  `src/quote.rs`: what the rest is built on.

Functions that need something from outside (a file, the clock, a directory)
are cut into steps. A step says what it waits for; the caller finds it out or
carries it out and goes on with the answer. `app` does that with `tokio`,
`tracing`, `serde` and the file system.

Proof functions whose names begin with `law_` state what holds of several
functions together.
