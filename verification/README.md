# epochroll

Monitoring logic for a Solana validator, verified with Verus: whether the
node's software meets the delegation program's minimum versions, what each
JSON-RPC reply of the node means, the status report (health, requirement
table, notes) and the maintenance advisor that groups the node's upcoming
leader slots.

- `src/` is the verified library (`utils`: version compliance and durations;
  `json`, `models`, `rpc`: replies and their meaning; `report`, `advisor`,
  `clock`: the report; `monitor`: the state kept between checks).
- `app/` is the service around it: configuration, HTTP, the check loop,
  slot-velocity estimates (floating point) and the chat notifications.
- `tests/` runs the library on concrete values.
