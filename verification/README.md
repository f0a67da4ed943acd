# forge

The decision logic of Forge, a declarative orchestrator for local multi-cluster
Kubernetes environments, written and verified in Verus.

- `src/config` holds the configuration, its JSON form and the validation rules.
  Each rule is stated by a complaint, the text it reports; `validate` reports the
  first. `config/validate/laws.rs` states what holds of every accepted
  configuration, `config/validate/order.rs` that the order of clusters and
  services does not matter.
- `src/command/up.rs` and `src/stack.rs` decide what the `up` and `stack`
  commands do. Each is a function from a run and an event to the next run and an
  action; the caller performs the action. Their `laws.rs` state what holds of
  every run.
- `src/lint.rs` is the diff-scoped lint.
- `src/text.rs`, `numeral.rs`, `ip.rs`, `json.rs`, `digest.rs`, `strmap.rs` and
  `graph.rs` are what the rules are made of.
- `app` reads files, runs `git` and drives the commands against a host.

Regular expressions, SHA-256, the JSON form of strings, the debug form of
strings and Unicode lower-casing come from outside; the functions that call them
are marked and say what is relied on.
