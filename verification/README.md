# psy_rollback

Verified storage logic for rolling a chain back to an earlier checkpoint.

A rollback discards a suffix of checkpoints. Every row of the suffix is copied into an
immutable archive first, all participants agree on barriers before anything is deleted,
and the state in front of the suffix is restored and published at the end.

- `src/` holds the rows and their codecs, the CQL statements, the archive plan and the
  decisions: which step comes next, and what each outcome means. Every function has a
  contract that Verus proves. The library performs no I/O.
- `tests/` runs the library on concrete rows, chains and courses.
- `app/` is ordinary Rust: it talks to ScyllaDB, asks the node's codecs, and hands the
  outcomes to the library.

The one function that is trusted is `hash::sha256_digest`, which calls the `sha2` crate.
Contracts speak of its result as `hash::sha256`.

What other parts of the node know (protocol codecs, compression, the registry of tables,
the canonical head) reaches the library as arguments: decoded values, refusals as texts,
and a `Registry`.

The laws of the library are the public proof functions whose names start with `law_`:
rows and payloads read back what was written, decoded bytes are the only bytes of what
they hold, archived evidence predates the fence, and no course skips a step.
