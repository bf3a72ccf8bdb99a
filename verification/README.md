# deliveries

Parcel tracking for DHL and Hermes shipments, as a verified library and a GTK
desktop app around it.

- `src/` is the library, proved with Verus:
  - `dhl.rs`: the tracker's JSON reply turned into tracking details, and the
    lookup of a DHL number as a sequence of requests (anonymous search,
    browser fallback, session, postcode, local time of a block).
  - `postcode.rs`: the session cookies and CSRF token, and what DHL's answer
    to a recipient postcode amounts to.
  - `hermes.rs`: Hermes' timeline, oldest entry first, and its lookup.
  - `tracker.rs`: the tracked list and the summary line of each shipment.
  - `text.rs`: trimming, decimal numbers and joining, stated over characters.
- `app/` performs the requests (reqwest, headless Chrome, GLib), stores the
  list as JSON and shows the window.
- `tests/` runs the library on concrete values.
