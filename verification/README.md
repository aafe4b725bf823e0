# projectlens

The core of ProjectLens, a desktop tool that analyses a source-code or RPA project
(Power Platform, Power Automate for Desktop, UiPath, Excel VBA) with static analysis and
the NewtonX AI service, and writes a system specification, a basic design and detail
design documents (Markdown, HTML or JSON).

Layout:

- `src/` is the library, verified with Verus: scanning decisions, the language table and
  the syntax-tree analysis, the dependency graph and its cycle detection, the RPA and VBA
  readers (MS-OVBA decompression included), prompt construction, AI response validation,
  the sidecar protocol and retry strategy, cache keys and expiry, document planning and
  Markdown rendering, and the settings' defaults.
- `app/` is the application around it: the settings file, the credential store, SQLite,
  the project folder walk, the NewtonX sidecar process and the concurrent analysis run.
  It holds serialisable copies of the library's types.
- `tests/` exercises the library on concrete values.
