# usage_derive

The decisions behind the `usage` derive macros, with proved contracts: how identifiers change
case, how the adopter's manifest names the runtime crates, which `usage::Config` declarations
are refused and why, how a binding's contract is hashed, what one field of a command decides
on its own, and what the generated code of a command, a subcommand enum, a value enum and an
argument group states.

- `src/` is the library. Every function in it has a contract over a mathematical model
  (`Seq`, spec functions, views) and is proved; the public proof functions state the laws
  that hold across calls.
- `app/` holds what the library cannot: reading `Cargo.toml` from disk, reading attributes
  with `syn`, and placing the library's answers as tokens and `syn::Error`s
  (`app/generator.rs` renders the plans of `command`, `subcommands`, `value_enum` and
  `arg_group`). It is an ordinary library, not a proc-macro crate: the `#[proc_macro_derive]`
  entry points that would call it are not part of this crate.
- `tests/` runs the library on concrete declarations.

Modules of the library:

| module        | what it decides                                                         |
|---------------|-------------------------------------------------------------------------|
| `case`        | word segmentation and kebab, snake, shouty, camel cases                 |
| `crate_name`  | which name a dependency is imported under, from the manifest text      |
| `paths`       | the path generated code uses for each runtime crate                    |
| `config`      | spec types, constants, and the checks on one setting's declaration      |
| `declaration` | the checks on a config struct as a whole: names, sources, files, flatten |
| `attributes`  | the values `merge`, `scope`, `parse` and `source` take                  |
| `fields`      | a field's selectors, views, duplicate policy, and gathered groups       |
| `layer`       | key minting, the settings-layer contribution, text from typed bytes    |
| `checks`      | which checks a command runs after parsing, and in which order          |
| `completion`  | how a completion request's hidden flags are read                       |
| `registry`    | the config files a registry lists, and how each setting is read        |
| `tables`      | where a command's own and spliced-in flags and arguments sit in its tables |
| `hash`        | the FNV-1a hashes that key declarations and binding contracts          |
| `dispatch`    | which dispatch trait a subcommand arm is called through, and each arm's plan |
| `command`     | a command's flags and arguments, keys, required flags, value building, entry points |
| `subcommands` | which variants are commands, which is external, which get an `Args` struct |
| `value_enum`  | the words a value enum shows and accepts, and which variant a word selects |
| `arg_group`   | an argument group's members, keys, conversions, and which members were given |
| `environment` | which variable fills a field from the environment, and what its value becomes |
| `text`, `unicode` | string helpers, and the char classes `std` decides               |
