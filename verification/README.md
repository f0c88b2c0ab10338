# SmartLog

A terminal UI for tailing and filtering JSON and plain-text logs, whose core
is verified with Verus.

## Layout

- `src/` — the verified library:
  - `parser.rs`, `timestamp.rs`, `json.rs`: turning a raw line into a log
    entry (JSON detection and pretty-printing, level detection, timestamps);
  - `app.rs`: the viewer state — the bounded log buffer, the level and text
    filters, scrolling, and the export contents and status message;
  - `inputs.rs`, `events.rs`: what each key, mouse or stream event does;
  - `layout.rs`, `view.rs`: row counting, follow mode, highlighting and the
    status bar, as styled lines that the UI draws;
  - `sources.rs`: line clean-up and truncation, the file-tailing decisions,
    the source notices and the demo stream;
  - `theme.rs`, `cli.rs`, `config.rs`, `text.rs`: themes, the source label,
    limits and character-sequence helpers;
  - `laws.rs`: properties that span several operations, proved once for all
    inputs.
- `app/` — the program around the library: command line, terminal setup,
  async sources, the event loop, rendering with Ratatui, and writing export
  files.
- `tests/` — tests of the library on concrete values.
