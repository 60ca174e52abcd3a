# musl_compat_test

A compatibility probe for static musl binaries on older or locked-down Linux
hosts, with its decision logic verified in Verus.

- `src/` — the verified library:
  - `kernel`: parsing a kernel release string into `KernelVersion`, rendering
    it back, and the version gate `at_least`.
  - `security`: interpreting what SELinux and AppArmor expose (`detect`,
    `may_restrict`, `summary`) and the exec-from-`/tmp` warning.
  - `runner`: the test table's entry type, the kernel and security gates
    (`evaluate`), judging a run, report lines and the final tally.
  - `suite`: the ordered test table with its kernel requirements.
  - `text`: character-level string helpers (trim, prefix, `:`-separated fields, ...).
- `app/` — the executable: reads the host (`uname`, `/sys`, `/proc`), runs
  the checks themselves (files, threads, sockets, syscalls) and prints.
- `tests/` — tests of the library.
