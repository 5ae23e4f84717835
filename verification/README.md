# winsysm

The verified core of a Windows system manager (disk scanner, cleanup
engine, security and health reports).

- `src/` is the library, verified with Verus: the catalog and discovery of
  cleanup locations (`targets`), ranking of measured entries by size
  (`ranking`), directory sizes and file type breakdowns (`breakdown`), the
  accounting of cleanup passes (`cleanup`), interpretation of what the user
  types (`input`, `text`) and terminal layout (`display`).
- `app/` is the front end: it walks the file system, reads the environment,
  queries drives through `sysinfo`, prints in color and reads the terminal,
  and hands plain values to the library.
- `tests/` exercises the library on concrete values.
