# oxlint_plugins

Lint rules for JavaScript, TypeScript, Astro and JSON sources, and a span
profiler, written in Verus. Every rule is a function from the source (or a
model of its syntax tree) to its reports, with a contract that states those
reports exactly, over spec functions of the source's characters.

## Layout

- `src/` — the verified library.
  - `text.rs`, `lines.rs`, `duration.rs` — characters, byte and UTF-16
    lengths, line positions, durations in nanoseconds.
  - `outside.rs` — the trusted wrappers around regex, Unicode normalization,
    the oxc parser and a few std functions, each with the contract it is
    believed to meet.
  - `oxc_nodes.rs`, `cypress/oxc.rs`, `e18e/oxc.rs` — the oxc parse of a
    source, named by a spec function, and its conversion node by node into
    the models that the Cypress and e18e rules walk.
  - `comments/` — the ESLint directive-comment rules: directive parsing, rule
    globs, disabled areas and their reports.
  - `eslint_json/` — a tolerant JSON/JSON5 reader (`reading.rs` states what
    it records, `parser.rs` proves the reader against it) and the JSON rules.
  - `angular/`, `astro/`, `cypress/`, `e18e/` — the rules of each plugin;
    Cypress and e18e walk a model of the syntax tree whose walks are stated
    as spec functions (`walk.rs`).
  - `profiler/` — timing statistics, a registry of named metrics and spans,
    and their summary.
  - each `laws.rs` — proof functions for properties that span several calls.
- `tests/` — tests of the library on concrete values.
- `app/` — the parts that stay outside Verus: the Astro script analysis (an
  oxc visitor), float arithmetic and the process-wide profiler with its
  allocation counters.
