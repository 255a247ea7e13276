# crypto_analyzer

A desktop tracker of cryptocurrency market data. The library under `src/`
holds its logic, verified with Verus:

- `filter`: search (trimmed, case-insensitive, by name or symbol), the
  favourites filter, and the stable ordering of the listing by rank, price,
  market cap, volume or 24h change, with laws on the listing.
- `storage`: the set of favourite coin ids and its stored form.
- `ui`: the application's state and the step taken on each event (data
  arriving, buttons, timers), with the invariants every step keeps.
- `client`, `details`, `dashboard`, `format`, `text`: request addresses,
  screen decisions, timestamp text and character-level string helpers.

`app/` is the window (eframe/egui), the HTTP requests (reqwest/tokio), the
favourites file (serde_json) and the floating-point number formatting.
`tests/` runs the library on concrete values.
