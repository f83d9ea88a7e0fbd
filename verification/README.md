# tiny

The terminal front end of a small coding agent, written in Verus. The library
under `src/` holds the interface's logic with contracts proved by Verus; the
crate under `app/` holds what touches the terminal, the network and the clock.

## Layout

- `src/text.rs` — previews, ellipsis, line splitting, trimming, decimals.
- `src/agent.rs` — messages, tool calls, sessions, and the commands and events
  exchanged with the agent's backend.
- `src/web_search.rs` — reading a search result page: titles, addresses,
  snippets, entity decoding; `scan_ends_on` decides whether `parse` can run.
- `src/tui/` — the interface:
  - `input`, `commands`, `palette`, `picker`, `permission`, `modal`: the input
    line, slash commands and the popups that claim keys;
  - `keys`, `events`: what a key, a paste or a backend report does to the
    state, what is printed and which commands go to the backend;
  - `print`, `prompt`, `prompt_input`, `frame`, `status`, `ansi`: the text
    printed into the scrollback and the prompt drawn below it;
  - `transcript`, `scroll`, `app`, `view`, `surface`, `entry`: the
    full-screen layout's transcript, scrolling and screen pieces;
  - `line`: line mode's output.
- `app/` — raw mode, the reader thread, the event loop, line mode, the
  ratatui drawing, and the web requests.
- `tests/` — tests run against the compiled library.

Laws the library keeps are stated as `law_*` proof functions beside the code
they speak of.
