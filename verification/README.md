# Lyrica

A Linux desktop lyrics display. It detects the song that is playing via MPRIS,
searches lyrics from several sources, and shows them in sync with playback in
the terminal and over an HTTP API.

## Layout

| Path | Holds |
|---|---|
| `src/` | the library, verified with [Verus](https://github.com/verus-lang/verus) |
| `tests/` | its tests |
| `app/` | the program around it: D-Bus, HTTP, files, terminal |

| Module of `src/` | Purpose |
|---|---|
| `lyrics` | lyrics with timed lines, the LRC and LRCX formats, line lookup |
| `scheduler` | which lyrics are shown, which line is current, when the next is due |
| `provider` | requests to NetEase, QQ Music, Kugou and LRCLIB, their replies, matching, ranking |
| `player` | MPRIS and macOS players: choice, metadata, events |
| `tui` | keys and contents of the terminal front end |
| `server` | answers of the HTTP API |
| `config`, `cache`, `display` | settings, cache keys, shared state |
| `text`, `time`, `order`, `table`, `single` | what the others are built on |

Each function states in its contract what it returns or changes. What holds of
several functions together is stated by the public proof functions whose names
start with `law_`.

Match qualities and provider weights are single-precision numbers, held by
their bits; their sums and products are rounded as the hardware rounds them.
