# todork

A scanner for `TODO`, `FIXME`, `HACK`, `XXX`, `NOTE`, `OPTIMIZE`, `BUG`,
`DEPRECATED` and custom annotation comments, written in Verus.

## Layout

- `src/` — the library, verified by Verus:
  - `cli` parses the command line into `Args`;
  - `config` resolves tags and globs into a `Config`;
  - `matcher` finds tags on a line (word boundaries, author, message);
  - `scanner` scans a file's contents (size limit, binary probe, lines);
  - `blame` reads `git blame --porcelain` output and describes ages;
  - `order` sorts findings by path and line or by commit date;
  - `report` decides tags, limits, paging, colour, blame files, exit code;
  - `formatter` lays out the text, table and GitHub Actions reports;
  - `upgrade` picks the release asset and reads the program out of it
    (through flate2, tar and zip).
- `app/` — the program around it: argument help, walking the file tree,
  running `git` and `less`, writing to the terminal, JSON output, and
  downloading upgrades.
- `tests/` — tests of the library.

## Exit codes

| Code | Meaning |
|------|---------|
| `0` | Annotations found |
| `1` | No annotations found |
| `2` | Fatal error (bad arguments, I/O failure) |
