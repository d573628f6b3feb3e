# mib_rs

Verified building blocks for reading SNMP MIB modules (SMIv1 and SMIv2).

- `src/` is the library, written in Verus. Every executable function carries
  a contract over mathematical models (`Seq`, `Map`, spec functions) and is
  proved to meet it.
  - `lexer`, `parser`, `ast`: tokenizing and parsing MIB text into module
    syntax trees with diagnostics.
  - `scan`: cheap probes that tell MIB files apart and list the module names
    they define.
  - `source`: documents, source ranges, candidate descriptions, and the
    in-memory module source (a name-to-bytes map with sorted listing).
  - `searchpath`: the net-snmp and libsmi search-path rules.
  - `mib`: parts of the resolved model (types, ranges, default values, type
    chains, resolution traces), a few of the resolver's pure rules and
    checks, and the import-resolution phase: each IMPORTS group of a module
    is resolved against the loaded modules of that name (newest
    LAST-UPDATED version first), through a compatibility alias, through
    modules that forward the symbol, or symbol by symbol, and what none of
    these finds is reported unresolved with its reason.
- `app/` holds what touches the file system, the environment and trait
  objects: the `Source` trait and its directory, file, memory and chained
  providers, system path discovery, and an error type with
  `std::error::Error`.
- `tests/` exercises the library through its public interface.

The other resolver phases (registration into a resolved `Mib`, types, OIDs,
semantics, checks) and symbol lookup on a `Mib` are not in this library.
