# hmm_app

Application services of a desktop mod manager, written in Verus: the decisions the shell
makes between its repositories and the game directory, each with a contract that Verus proves.

- `src/` is the verified library. Each module holds one service area: the storage write gate
  and storage migration, import task admission, library queries and their projection,
  installation state and sessions, reinstall preview (its admission, the replacement context,
  preflight, attachments and added source files), plugin selection (the inventory, the
  selection's effect on a plan, plan coverage), profiles, previews, diagnostics and statistics.
  Repositories and other ports are traits the caller implements; the few calls into outside code (SHA-256, random tokens, the
  clock, path checks and path equality, Unicode case mapping) sit behind small trusted wrappers.
- `tests/` runs the library on concrete values.
- `app/` holds what needs threads, locks or serde: the shared freshness window, the preview
  concurrency limiter, the diagnostics export and error types with `Display`.
