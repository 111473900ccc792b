# pmtconcon

The rules of a sticker-icon library, written in Verus and proved: how names,
alt texts and notes are normalised, how icons are ordered, duplicated and
reordered, how pieces are matched to their slots, how stored effect and
motion recipes are read and saved under a revision guard, how AI run
snapshots are screened and put in canonical form, how AI version lineages are
cloned, and which paths the library may create, promote or remove. The
operations that read rows, decide and then write (duplicating an icon,
replacing its source, saving an AI candidate as a new icon or as a child
version, cloning a collection's icons, their previews and their active
optimisation outputs, saving effects) have plan functions in `src/plans.rs`
that return the values the operation decides (names, kinds, positions,
ids, copied columns, paths, revisions), or its refusal; floating-point
columns (text-overlay geometry, crop rectangles) are copied by the
database unchanged. Run snapshots are parsed and printed through
`serde_json` behind trusted wrappers in `src/snapshots.rs`.

Layout:

- `src/` is the verified library. Each module states its behaviour in
  `requires` / `ensures` contracts over mathematical models (`Seq`, `Map`,
  `int`), and the properties that span several calls are proved as public
  `lemma_*` proof functions.
- `tests/` runs the library on concrete values.
- `app/` is the unverified side: SQLite queries through `rusqlite`,
  directory walks and renames through `std::fs`.
  It reads what the library's decisions need and carries out what they
  return.
