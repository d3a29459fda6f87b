# who-me

`who-me` is a keyboard-first terminal dashboard of identities, a daily calendar with
mood ratings, mood statistics, and judgements, with optional private GitHub sync.

The library in `src/` is written in Verus: its data model, validation, key handling,
navigation and editing, statistics, text measurement and wrapping, screen layout, the
words the screen shows, the sync decisions and the sync worker's state are proved
against their contracts. Laws that relate several operations (checking twice, moving
down and up, rating and clearing a day, accepting a prepared document once, wrapping
keeping the words in order, longer statistics periods counting more) are stated as public
proof functions.

- `src/model.rs`, `src/date.rs`: the document, its validity, dates and the calendar.
- `src/app.rs`, `src/keys.rs`, `src/navigation.rs`, `src/editing.rs`, `src/input.rs`: the
  dashboard's state and what every key does to it.
- `src/layout.rs`, `src/cards.rs`, `src/view.rs`, `src/theme.rs`: columns, wrapping, card
  placement, scrolling, the footer and header texts, and colours.
- `src/sync.rs`, `src/worker.rs`, `src/session.rs`, `src/storage.rs`, `src/cli.rs`: sync
  configuration and decisions, the worker's steps, the running loop's decisions, file
  paths and the command line.
- `app/`: the program around the library: terminal, files, `git` and drawing.
- `tests/`: tests of the library on concrete values.
