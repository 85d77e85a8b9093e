# media_gateway

A low-power web media gateway: one server owns the site sessions, media
resolution and media proxying, and hands one playback task to different
displays (a web display, Jellyfin, ...). The gateway recognises a site but
does not interpret it; site-specific logic belongs to site plugins.

The library is written in Verus: its functions state in `requires` /
`ensures` what they need, return and change, and Verus proves the code against
those contracts.

## Layout

- `src/` — the verified library.
  - `playback`, `control`, `control_view`: the playback session authority
    (revisions, request-id replay, display handoff, media refresh), the
    control service with its event journal, and the read-only control view;
    laws over runs of session operations.
  - `display_session`, `display_adapter`: display registration, page-instance
    leases and the facts a display reports.
  - `auth`: the site-session vault (candidates, validation and atomic swap,
    logout) and site access capabilities; laws over sequences of vault
    operations. `auth_api`, `auth_route`: the browser sign-in surface and the
    request ledgers of sign-in attempts.
  - `security`, `capabilities`, `delivery`, `media`, `outputs`, `hls`: scoped
    egress, media capabilities, delivery requests, MP4 checks and the remux
    command, published outputs, HLS manifest rewriting.
  - `browser`, `worker`: browser worker contracts, CDP event decisions, the
    Chromium command line and an in-memory worker.
  - `probe`, `http_surface`, `gateway`: the playback probe, the guard on the
    gateway's own HTTP surface, and small gateway rules (stream paths, byte
    ranges, escaping, error codes).
  - `text`, `ids`, `keyed`: strings, opaque identifiers and keyed vectors.
- `tests/` — tests of the library, run against the real outside crates.
- `app/` — the server: routes, HTTP and process I/O, and the delivery runner.
  It calls the library and holds no rule of its own.

Calls into outside crates (`url`, `uuid`, and the `http` header types that
`axum` re-exports) and into std (the clock, `String::push`) stand behind a
few trusted wrappers in `src/`, each with a doc comment that says what its
contract claims of the outside code.

The browser authentication runtime and its attempt registry are not here:
they are built on the site-adapter interface crate, which this project does
not include.
