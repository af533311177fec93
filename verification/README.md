# gard

A package security gate for git: before a push, every package that a
lockfile newly adds is checked in three tiers.

1. **Known vulnerabilities** (OSV): a hit blocks; a failed lookup warns.
2. **Registry metadata**: a risk score from the package's age and recent
   downloads; a score of 60 flags the package for the source analysis.
3. **Source analysis** of the installed package: install scripts, dangerous
   source patterns, and signs of obfuscation.

## Layout

- `src/` — the library, verified with Verus: lockfile parsing and diffing,
  the manifest, the tier-2 score and registry dates, the tier-3 analysis, the
  verdict, the pre-push hook's content, and the reports. Each public function
  states its result in its contract; the laws that span functions are proof
  functions (`lemma_*`).
- `tests/` — tests of the library on concrete values.
- `app/` — the `gard` command: argument handling, files, the network and
  printing, around the library.

Calls into `regex`, `serde_json` and `chrono` that the library's logic makes
stand behind small trusted wrappers, each documented with what it claims.
