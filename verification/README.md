# tar_install

Installs Linux application tarballs as desktop apps: the app directory, a
command wrapper, a `.desktop` entry, an icon, and a record of installed apps
that makes clean removal possible. `tarminal` is its command-line front end.

The library under `src/` is verified with Verus; every public function states
what it returns in its contract.

```text
src/
  text.rs         characters, trimming, splitting, case, ordering
  pathstr.rs      Unix paths as strings, with std::path component semantics
  regex_ops.rs    the calls into the regex crate
  filename.rs     app, version, OS and architecture guessed from a file name
  version.rs      versions in program output and metadata; detection steps
  recipe.rs       recipes, install inputs, id and command sanitizing
  paths.rs        install locations for the user and system scopes
  state.rs        the record of installed apps, kept ordered by id
  archive.rs      entry safety, executable/icon/manifest candidates, decoders
  desktop.rs      desktop entry text
  install.rs      planning, extraction rules, wrapper script, removal, checks
  install_run.rs  the steps of an install once it is planned
  configure.rs    values offered and answers taken when configuring by hand
  checksum.rs     SHA-256 of an archive, in hexadecimal
  laws.rs         properties that span several functions
app/              the tarminal CLI, file and process work, serde formats, C API
tests/            tests of the library
```

The library decides and the application acts: reading archives, running
version probes, writing files and saving state happen in `app/`, which hands
the library plain values and carries out the actions it returns.
