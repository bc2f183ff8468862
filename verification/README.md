# jpcg

Core of a JX3 PVP damage calculator, verified with Verus.

`src/` is the verified library:

- `level_constant` — the level constant snapshot format and its exact
  decimal parser.
- `xinfa`, `profession` — data versions and their labels, profession data
  file names, and the profession list (newest file per group).
- `presets` — combo preset files.
- `config`, `api` — player and target attributes and their transfer forms.
- `combo` — the health model and kill counts of the kill-chance simulation.
- `ffi` — protocol versions, sessions and method routing of the C interface.
- `update` — update channels and URLs, version directories, manifests,
  SHA-256 checks, the files to download, module libraries and the local
  module snapshot.
- `updater` — the command line of the binary replacer.
- `text` — character-level string helpers.

`app/` holds what surrounds the library: serialised forms, file and network
input/output, the floating-point damage engine and simulation, the C entry
points and the command line update tools.

`tests/` exercises the library on concrete values.
