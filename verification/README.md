# backend

The verified core of a recipe-assistant web service. Users keep a cooking
profile (ingredients, appliances, cookware, preferences), import ingredients
from CSV files of EAN-13 barcodes, and ask for a recipe: the service searches
the web, reads candidate pages, has a language model extract, filter, rank and
adapt recipes, and answers with a Markdown page.

## Layout

- `src/` — the library, verified with Verus:
  - `error.rs` — the error type, its HTTP answers, request field checks,
    `Retry-After` handling;
  - `job_store.rs` — background jobs by id, with laws on creation, progress,
    status and clean-up;
  - `services/` — the per-minute request and token windows
    (`rate_window.rs`, `groq.rs`), the page reader's and the search
    service's answers (`jina.rs`, `serp.rs`), the recipe search pipeline and
    its Markdown page (`recipe_orchestrator.rs`), the prompts
    (`prompts.rs`), the barcode import job (`barcode_import_orchestrator.rs`),
    passwords and tokens (`auth.rs`);
  - `handlers/`, `middleware/` — the decisions of the HTTP handlers and of
    authentication: uploads, barcodes in CSV, job access, credentials,
    password links, bearer tokens;
  - `models/`, `db/`, `config.rs`, `text.rs` — data, settings and text
    helpers.
- `tests/` — tests of the library on concrete values.
- `app/` — the program around the library: HTTP server and routes, database
  queries, HTTP clients, the asynchronous job runners, JSON shapes, and what
  rests on floating point (costs, token estimates, the search token bucket).
