# viperus

A layered configuration store, verified with Verus.

A value is looked up, in this order, among explicit overrides, command-line
arguments given, configuration files (dotenv, java properties, JSON, TOML,
YAML), environment variables (when switched on), command-line defaults and
defaults.

Layout:

- `src/` — the verified library
  - `map.rs`: the key/value map behind every layer
  - `value.rs`: configuration values and their typed reading and parsing
  - `tree.rs`: flattening of JSON, TOML and YAML documents into dotted keys
  - `parse.rs`: the calls into the JSON, TOML and YAML parsers
  - `depth.rs`: bounds on how deeply a TOML or YAML text nests, read
    before it is parsed
  - `adapter.rs`: the adapters that turn a source into a map
  - `cli.rs`: command-line matches and bonds between keys and arguments
  - `viperus.rs`: the layered store and its lookup
  - `global.rs`: the module-level API over one store
  - `laws.rs`: properties that relate several operations
  - `pairs.rs`: maps built from sequences of pairs
- `tests/` — tests of the library
- `app/` — file access, reading the process environment (handed to the
  library with `Viperus::set_environment`), the global instance, file
  watching and the conversion of `clap` matches, around the library
