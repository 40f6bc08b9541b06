# calendar_transform

A verified library that turns a Moodle calendar export (iCalendar) into a
calendar of to-do items, and the Cloudflare worker around it.

An event whose summary contains "odpre" opens an assignment; the event whose
UID carries the next number closes it.  Each such pair becomes one to-do item
that starts when the opener starts and is due when the closer ends; every
other event becomes a to-do item that starts at its `LAST-MODIFIED` time.
Stored completion state (`<completion time>;<percent>` under the user's id
followed by the item's UID) is applied to the items before they are served.

Layout:

- `src/` — the library, verified with Verus.
  - `transformer.rs`: the pairing of openers and closers and the to-do items
    made from events, with its specification over the parsed components.
  - `laws.rs`: properties of the transformation proved for every calendar.
  - `state.rs`: completion state keys and how stored values are applied.
  - `render.rs`: which properties a to-do item is written with, and the
    calendar text around them.
  - `params.rs`: query parameters, export addresses, route parameters.
  - `text.rs`: decimal numbers, splitting, case folding, substring search.
  - `model.rs`: the library's types.
  - `ical.rs`, `dates.rs`, `codec.rs`: the calls into `icalendar`, `chrono`,
    `base64` and std's UTF-8 check, with the contracts that are trusted.
- `tests/` — tests of the library.
- `app/` — the worker: routing, fetching, the KV store and responses.
