# raven_news

Ingestion of news RSS feeds and Polymarket events into PostgreSQL. The
parsing, normalisation, paging and scheduling decisions are written in Verus
and proved against their contracts; the XML reader and the date parsers are
outside crates whose results the contracts name rather than describe.

## Layout

- `src/` – the verified library.
  - `rss/` – normalised `RssItem`s, CDATA cleaning, and the Politico and WSJ
    feed parsers: each is a state machine over XML events, and a parse yields
    what that machine builds from the events `quick_xml` reads in the
    document.
  - `ingest.rs` – the feed registry and the selection of feeds to ingest.
  - `polymarket/` – JSON values as the API returns them (`json.rs`), event
    normalisation with tag deduplication (`events.rs`), and the paging,
    rate-limit decisions of a sync and when scheduled syncs are due
    (`sync.rs`).
  - `cli.rs`, `db/` – menu choices, settings and the statistics queries.
  - `text.rs`, `time.rs`, `xml.rs` – string helpers, instants, and the
    calls into `chrono` and `quick_xml` with their stated contracts.
- `app/` – the command-line program: HTTP, database access, terminal menus
  and the async schedulers, driving the library's decisions.
- `tests/` – tests of the library on concrete inputs.

## Environment

`DATABASE_URL` (required), `POLYMARKET_MAX_PAGES`, `POLYMARKET_PAGE_LIMIT`,
`POLYMARKET_REQUEST_DELAY_MS`, `POLYMARKET_SPIKE_MIN_VOLUME_DELTA`,
`POLYMARKET_SPIKE_MIN_VOLUME_PCT`, `POLYMARKET_SPIKE_LIMIT`.
