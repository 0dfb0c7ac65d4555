# solidity_ast

Prepares Solidity projects (Foundry, Hardhat, Soldeer or custom layouts) for AST
generation with `solc`.

- `src/` is the verified library. Paths are modelled as sequences of components
  (`paths`), substring tests are done on characters (`text`). `config` holds the
  builder and assembles a `ProjectConfigInput` from the framework configuration and
  the directories found on disk, excluding libraries, tests, scripts and
  dependencies that lie inside the sources. `input` decides which files are covered
  (`is_included`, the directory-walk predicates, the filter over compiler output).
  `compiler_input` builds the standard-JSON input that asks for ASTs.
- `app/` reads the filesystem, loads the framework configuration, picks or
  installs the compiler, groups the sources by compiler version, runs the
  compiler and decodes its JSON output. The exclusion, inclusion and
  configuration decisions, and the compiler input for each group, come from
  the library.
