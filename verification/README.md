# tarpaulin_config

The configuration of a coverage run, verified with Verus.

- `src/` is the verified library:
  - `config.rs`: the settings of a run, how they are put together from the
    command-line arguments and the tables of a configuration file, and the
    questions a run asks of them (which files are excluded, where the base
    directory is, whether the output directory is the current one).
  - `path.rs`, `split.rs`, `path_laws.rs`: Unix path components, joining
    them, the relative path from one location to another, and the laws that
    tie them together.
  - `glob.rs`: exclusion globs and their regular expressions.
  - `types.rs`: run types, report kinds, timeouts and CI services.
- `app/` reads arguments, the environment and configuration files, and
  holds the serde form of a configuration.
- `tests/` runs the library on concrete values.
