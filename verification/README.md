# audit_api

Repository audit trials, verified with Verus.

- `src/` is the library. Its modules:
  - `text`, `paths`: character-level text helpers and lexical Unix paths
    (components, normalisation, join, prefixes, extensions).
  - `model`: findings, their JSON-scalar evidence, the link metric.
  - `markdown_links`, `link_scan`, `link_findings`, `link_audit`,
    `repo_roots`: the guidance-link trial — destination classification,
    percent-decoding, the guidance corpus, link extraction (through
    `pulldown-cmark`) with line numbers, the findings of each class, the
    per-link decisions and counters, and nested-repository lookups with
    their cache.
  - `repository_guidance`: the required repository-root guidance files.
  - `finding_entity`, `move_domain`: where persisted finding folders live,
    entity ids (through `uuid`), and the audit move domain's folders.
  - `cli`: the `audit` command line.
- `app/` holds the file-system and serialization plumbing: walking the
  repository (`ignore`), reading files, probing for `.git` and folders, and
  JSON records (`serde`, `serde_json`).
- `tests/` exercises the library over in-memory repositories.
