# cargo_read

`cargo read` downloads a crate's source from crates.io and shows its README,
metadata and file listing. This crate holds its logic, with contracts that
Verus proves:

- `api_scan` — a line-based scanner that lists a crate's public items with
  fully qualified paths, and the listing it prints.
- `rustdoc_model`, `rustdoc_render` — markdown documentation rendered from a
  model of rustdoc's JSON description of a crate.
- `rustdoc_json` — reading rustdoc's JSON text into that model and rendering it.
- `rustdoc_build` — the steps of getting the JSON: reuse a cached file, check
  for nightly Rust, build, check the result.
- `registry` — the registry's answer parsed from its text, the choice of a version from it, the
  registry's addresses, and unpacking a downloaded archive.
- `files` — the cache directory, README candidates and the file listing.
- `args` — the `CRATE[=VERSION]` specification and the arguments.
- `paths`, `text` — relative paths and character-level text operations.

`app/` is the command-line program around the library: argument parsing,
network and file access, and running the commands that `rustdoc_build` asks for.
