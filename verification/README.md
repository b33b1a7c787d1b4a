# kiiyo_api

The backend of the kiiyo.top homepage: it fetches Discord (Lanyard), Last.fm, Steam,
Leetify, osu!, VNDB and GitHub, normalises each response and serves one snapshot at
`/api/snapshot`. A source that fails is served as `null`.

- `src/` is the library, verified with Verus: the JSON model, the normalisation of each
  source, the ranking of genres and languages, the ordering of rated titles, the
  response cache, the redaction of URLs in error messages and the assembly of the
  snapshot. Each public function states its result in its `ensures`; the `law_*` proof
  functions state what holds across calls.
- `app/` is the server around it: configuration, HTTP, the async fetches, the serde
  shapes that are served, and the figures that are floating point (the CS2 ratings,
  the osu! statistics and the VNDB scores).
- `tests/` runs the library on concrete responses.
