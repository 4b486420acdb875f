# lynx_engine

The engine of the Lynx installer toolkit: it reads a `lynx.toml` project,
packs an application's files into a `.lynxpak` bundle (a zstd-compressed tar
archive whose first entry, `lynxpak.json`, is the manifest that says where each
file goes), and installs such a bundle step by step on the target machine.

The library in `src/` is verified with Verus. Every public function states in
its contract what it returns; the laws of the library (decoding a project's
encoded TOML tree gives the project back, a token set is the token looked up,
tokens resolve all at once whatever order they were set in, each bundled file
lands at its resolved destination, an install step's actions always open with
its begin event and close with exactly one ending) are public proof functions
beside the code they speak of. That the `toml` crate reads its own rendering
back into the same tree is not something that crate states, so the round trip
through project text is tested rather than proved.

## Layout

- `src/config.rs`, `src/schema.rs`, `src/toml_tree.rs`: the project schema, its
  defaults, and the decoding and encoding of a project as a TOML document.
- `src/extract.rs`: path tokens (`{install_dir}`, `{app_name}`, ...) and where
  extracted entries go.
- `src/bundle.rs`, `src/payload.rs`: which files enter a bundle, where they are
  stored, the bundle manifest and progress events, and the zstd payload.
- `src/runner.rs`: what each install step does, as a list of actions for the
  host to perform, and how a process outcome is judged.
- `src/prerequisites.rs`: whether the install may begin, from what the host
  reports of each prerequisite (versions are compared part by part).
- `src/builder.rs`, `src/shell.rs`: the project editor's validation and the
  installer shell's summary of an embedded project.
- `src/text.rs`, `src/host.rs`, `src/progress.rs`, `src/error.rs`: text helpers,
  host facts, progress events and errors.

`app/` holds what runs around the library: file and process I/O, archive
reading and writing, serde copies of the library's types, and the install loop
that performs the actions the library plans.
