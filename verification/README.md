# blitz_l10n

A verified library for installing community localizations into Tanks Blitz.

- `src/` is the library, verified with Verus: version compatibility and
  ordering, instance discovery (launcher registry value, `preferences.xml`,
  drive scan, de-duplication), instance fingerprints and backup names, the
  download-cache decisions, the installation state machine, and the records
  it writes.
- `app/` performs the file, network, registry and drive work around it and
  holds serializable copies of the library's records.
- `tests/` exercises the library on concrete values.
