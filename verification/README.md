# inventory_dashboard

An inventory dashboard: a REST server that keeps items and an audit trail
of stock changes in a redb database, and a web page that lists, searches,
adjusts and exports them.

- `src/` is the verified library (Verus):
  - `inventory` — items, audit entries, and the decisions of each store
    operation (creating, updating, deleting, listing), over a model of the
    two tables;
  - `laws` — what holds across operations: fresh ids, reads after writes,
    refused and repeated requests, and that the audit trail adds up to the
    stock of every item;
  - `clock` — the system clock that stamps audit entries;
  - `text` — decimal numbers, reading the stock field, searching, CSV quoting;
  - `dashboard` — what the page decides: socket address, button and form
    requests, search, labels, CSV export;
  - `api` — which static file a request path names, its content type, and
    the answers of the HTTP handlers.
- `app/` is the program around it: built natively, the axum server and its
  redb storage (database reads and writes, JSON); built for wasm32, the
  leptos page.
- `tests/` exercises the library on concrete values.
