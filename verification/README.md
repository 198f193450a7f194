# oxc_ex_nif

A JavaScript and TypeScript toolchain for Elixir, built on [oxc](https://oxc.rs) and
[rolldown](https://rolldown.rs): parse, check, transform and minify modules, list what they import,
and bundle projects that live in memory.

- `src/` is the library. Its functions state what they return, and Verus proves it. Calls into oxc,
  serde_json, rayon and std stand in small functions marked `external_body`, whose contracts are
  believed; those among them that convert oxc's syntax tree state nothing of their own.
- `app/` is the NIF around it: terms, temporary directories, and the bundler.
- `tests/` runs the library with the real toolchain.

| Module      | What it holds                                                      |
|-------------|--------------------------------------------------------------------|
| `compile`   | parsing, checking, transforming, minifying, listing imports        |
| `imports`   | the search for mentions of other modules in a syntax tree          |
| `syntax`    | the syntax tree, as far as that search reads it                    |
| `options`   | options of single modules                                          |
| `toolchain` | the calls into oxc                                                 |
| `bundle`    | what a bundle asks for, step by step, and what comes of it         |
| `config`    | what the bundler is told                                           |
| `externals` | the packages that stay outside a bundle                            |
| `paths`     | names of virtual files                                             |
| `preamble`  | statements at the start of a bundle                                |
| `sourcemap` | sources of a source map, relative to the project                   |
| `json`      | JSON values                                                        |
| `sorted`    | sets of strings in ascending order                                 |
| `text`      | strings as sequences of characters                                 |
