# contile

Contile serves sponsored tiles for the Firefox new-tab page. It asks an
advertising partner for tiles, checks each tile against the advertiser settings
(allowed hosts and paths for the advertiser, click, impression and image URLs),
caches the result per audience (country, region, form factor, OS) and answers
with JSON.

## Layout

- `src/` is the library, written in Verus. Each public function states its
  behaviour in `requires`/`ensures`, and Verus proves it.
  - `adm/`: the advertiser settings (parsing, path filters), the tile filter and
    the partner request and reply.
  - `server/`: the tile cache and its state transitions, image checks and
    naming for the image store, location header parsing, the shared-cache
    values.
  - `sov.rs`: share-of-voice settings; `handlers.rs`: the decisions of the tiles
    handler; `settings.rs`, `tags.rs`, `error.rs`, `user_agent.rs`.
  - `text.rs`, `json.rs`, `strmap.rs`, `codec.rs`, `web_url.rs`: text, JSON,
    small maps, encodings and URLs, with the calls into outside crates behind
    trusted wrappers whose contracts are documented where they stand.
- `app/` is the program around the library: configuration loading, logging,
  metrics, the HTTP server and handlers, cloud storage and Redis I/O, and the
  background refresh tasks.
- `tests/` runs the library with the outside crates linked.
