# git_difftool

The logic of `git difftool`, verified with Verus.

- `src/` is the library. `object`, `read_cache`, `types` and `entry` hold
  git's file modes, index flags, exit codes and checkout flags; `hash` and
  `hex` hold object ids and their hexadecimal form; `builtin/difftool/` holds
  the options and configuration of the command, the reader of
  `git diff --raw -z` output, the stand-in files of the directory diff and
  the decisions taken while diffing.
- `app/` is the builtin as git calls it: it parses the command line with
  clap, calls git's C functions, runs processes and writes files. The steps
  of the directory diff come from the library: `read_record` reads each
  record, `plan_record` says which reads and checkouts it takes and
  `right_step` what becomes of its right side; after the tool,
  `copy_back_action` and `copy_back_step` decide each file and whether the
  run failed, and `dir_diff_end` decides whether the tool runs at all, the
  exit code and whether the temporary directory is kept.
- `tests/` runs the library on concrete values.
