# shared_table

The table of parachain statements that a validator shares between its message router and its
consensus proposer. It decides which candidates the local validator has to validate, keeps what
validation found, signs the statements that follow, and tells those that wait for candidates to
be includable.

- `src/` is the library, verified with Verus. `table.rs` holds `SharedTable`; `work.rs` the work
  of validating a candidate; `context.rs` who the validators are; `includable.rs` who waits for
  what; `laws.rs` what holds of every history of a table.
- `app/` shares a table between tasks: it adds the lock, the futures, the statement table and the
  store of candidate data.
- `tests/` runs the library.

What is not proved is in `crypto.rs` and `primitives.rs`: that ed25519 keys and signatures of
`sp_core` are functions of the seed and the message, and how `sp_core` displays a digest.
