# rust_labs

A Verus-verified library of small pieces, with the programs around it in `app/`.

- `post` — a blog post whose moderation stage is its type (`New` → `Unmoderated` →
  `Published`/`Deleted`), with the lifecycle as a spec state machine and its laws.
- `storage`, `users` — a key/value `Storage` trait, its `HashMap` implementation, and a
  user repository over it (generic and trait-object flavours).
- `sorted_map` — a `BTreeMap` built from key/value pairs, the last pair winning.
- `config` — the service configuration, its defaults, the default settings layer and the
  `--debug` switch.
- `request` — tariffs and gifts of a stream request.
- `text`, `slug`, `snippets`, `provider`, `cli` — the snippet store: Unicode white space
  and trimming, kebab-case slugs, the snippet list operations (create, read, delete, stable
  sort by name, saving over a taken name in place), RFC 3339 times through chrono, the
  storage setting and the command-line decisions (`--backend`, `--json-path`,
  `--sqlite-path`, `--name`, `--lang`, `--download`, `--read`, `--remove`, `--list`) with
  the reports they print.
- `download`, `logging` — where a download URL connects and what a plain HTTP reply says;
  which log records a level keeps.

`app/main.rs` runs the programs: `request`, `config`, `users` and `snippets`; file, database,
environment, standard input and output, and serialisation live there.
