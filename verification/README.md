# aom

Policies of an agentic CI/CD orchestrator, with their behaviour stated as
contracts and proved by Verus.

- `src/handoff.rs` — validation of a planning-only handoff payload into a
  report of findings, and the dry-run plan built from a report.
- `src/json.rs` — the JSON document model that validation reads, and the
  trusted call that parses JSON text with serde_json.
- `src/branch_policy.rs` — which branches the agent may create, push and
  delete, and the deterministic name of an attempt branch.
- `src/goals.rs` — the values of a `goals.toml`.
- `src/text.rs` — character-level string operations the policies use.
- `app/` — reading files, and parsing TOML into the goal types.
