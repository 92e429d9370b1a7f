# clone_manager

The decisions of a Holochain clone manager, verified with Verus.

A clone manager keeps, for a role of a Holochain app, one running cloned cell
per clone request. Clone requests are entries linked from the path
`all_clone_requests`; agents that run a clone announce themselves with a link
from the request to their key.

- `src/reconcile.rs` plans the reconciliation of a role's cloned cells with the
  requests (re-enable, create, disable), and `src/reconcile_laws.rs` proves what
  the plan guarantees: each action has its reason, the plan is empty exactly when
  the cells are reconciled, and performing it reconciles them.
- `src/integrity.rs` holds the validation rules of the entries and links.
- `src/coordinator.rs` holds what the zome functions keep of the links, records
  and details that the host returns.
- `src/entry_hash.rs` computes the entry hash of a serialized request with
  `holo_hash`; `src/hashes.rs` and `src/cells.rs` hold the plain values.
- `app/` is the Holochain side: the zome functions and validation callbacks with
  their host calls, and the conductor loop that performs a plan over
  `holochain_client`.
