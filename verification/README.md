# qstudio

The verified core of QStudio, a desktop workbench for quantitative market
queries, written in Verus.

`src/` is the library. Every function of it is proved against its contract
except five small wrappers around the standard library and `uuid`
(`String::push`, `str::to_lowercase`, `Path::file_name`, the `Debug` text
of a string, `Uuid::new_v4`), whose contracts are trusted and say no more
than those functions' documentation and source show:

- `model_query`: the single-model query language (`HISTORICAL`, `LIVE` or
  `FUNDAMENTAL` model, `PULL`, one `CALC`, `SHOWTABLE`/`GRAPH`): lexer and
  recursive-descent parser, each specified by a grammar over the token
  stream.
- `frame_query`: the frame query language (provider blocks, frames with
  `CALC` lines, a `GRAPH` block and a `TRADE` rule): lexer, parser, the
  dependency ordering of calculations in waves, and the search request of
  each provider.
- `trading`: where trades open and close over the rows of a frame, given
  the per-row entry, exit and stop-loss signals; `alignment`: the master
  timeline of the series a trade reads and the backward as-of match.
- `dispatch`: the events between interface, server and engine, what
  answers each and where the interface routes them; `engine`: the status
  and reports of a run step by step, how a query that does not parse is
  reported, and the engine's published output.
- `busbar`, `tcp`, `events`, `windows`, `files`, `folder_tree`, `ui`,
  `theme`: message envelopes, a double buffer, the client registry,
  notification kinds, window ids, ports and addresses, the file tree's
  filter, order, selection and renaming, the side bar's panels, search
  suggestions and colour palettes.
- `text`, `numbers`, `scan`, `keyed`: characters, number grammars
  (including the strings `f64::from_str` accepts), lexing positions and a
  string-keyed map.

Laws that relate several operations are public proof functions named
`law_*`.

`app/` is the ordinary Rust around the library: envelopes as JSON, the TCP
link, the channels of the client and the loops that move events along
them, the files on disk, and the floating-point arithmetic of the
calculations and trade signals. `tests/` runs the library on concrete
queries.

Not here: the window toolkit's drawing, the GPU kernels and the table
library's column work, whose crates the library does not build on.
