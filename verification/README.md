# rafael

Rafael purges old files and emptied directories from a large file system
with many worker threads; Puriel later purges the files that Rafael recorded
as about to become old; `maketree` generates test trees.

- `src/` is the verified library (Verus): the termination detector of the
  workers (`safra`), the age rules (`metadata_utils`), the per-entry plan of a
  directory scan (`entry_evaluation`), the exception filter, the root
  walk's work assignment and the log line (`purger`), Puriel's settings and
  target queues (`puriel_utils`), the syslog messages (`syslog_utility`), the
  test-tree shape (`maketree`), the keep marks that decide which emptied
  directories are removed (`purge_marks`) and the text helpers they share
  (`text`).
- `app/` holds the programs around it: command lines, the file system walk,
  threads, progress display, files, syslog and floating-point figures.
- `tests/` exercises the library on concrete values.

Notes on how the programs are put together:

- The termination detector is one state machine (`safra::SafraTerminator`);
  the workers share it behind a `Mutex`, so each check is one atomic step.
  Its laws (the token goes round the ring in order, a declaration follows a
  whole idle round, idle rounds in ring order terminate within `2n + 1`
  checks) are proved over any sequence of such steps.
- Paths travel through the worker queues as the operating system's bytes, so
  names that are not UTF-8 are walked; exceptions are matched against the
  printable form of the path.
- `app/` is a library crate whose entry functions (`mains.rs`) are what the
  `rafael`, `puriel`, `puriel_main` and `maketree` programs run.
- `maketree --purgable` backdates the deterministic pattern (even directories
  purgeable, odd ones not); without it no timestamp is backdated.
