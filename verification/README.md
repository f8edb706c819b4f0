# gastown-tui

A terminal dashboard for a Gas Town multi-agent workspace, with its core
verified in Verus.

- `src/` is the verified library:
  - `app.rs`: the dashboard's state (tabs, scrolling, filter line, spawn
    dialog, records and derived counts), its mathematical model `AppView`,
    one method per key or action, the key dispatcher `handle_key`, and the
    laws these operations obey.
  - `gastown.rs`: the records shown (agents, beads, convoys, feed entries),
    their status labels, the records the `gt`/`bd` tools report, and how
    those reports become dashboard rows (the status rules are this
    library's own).
  - `repos.rs`: repository records, reading `git` output, the scan rule and
    the name order, the search roots and depth.
  - `view.rs`: what the screen shows, computed apart from drawing.
  - `api_client.rs`: the HTTP service's answer records.
  - `schedule.rs`: the event loop's clock: how long to wait for a key,
    when to animate and when to fetch fresh records.
  - `demo.rs`: the sample records shown when `gt` is not available.
  - `text.rs`: character-level text functions (search, parsing, splitting,
    trimming, replacing, decimal rendering).
- `app/` is the program around it: terminal setup and event loop, drawing
  with ratatui, running `gt`, `bd` and `git`, reading files, HTTP requests,
  and serde copies of the record types.
- `tests/` exercises the library on concrete values.
