# codex_switcher

A verified library for switching between Codex accounts: the account catalog
(`accounts.json`) and Codex's live credentials (`auth.json`), with the rules that
keep them consistent, and a small web server around it.

- `src/` — the library, verified with Verus. Each public function states what it
  returns or changes in its `ensures`; proof functions named `law_*` state
  properties that span several functions (reconciliation converges, removing
  undoes adding, merging is idempotent, slim exports of valid catalogs validate,
  failed commits stay failed and never commit the catalog after a failed
  publication, a catalog-only change is rolled back when auth.json changes after
  its commit, a replaced ChatGPT bundle left in auth.json is recognized as stale,
  merges keep ids and names distinct, a cancelled login never stores its account, a published file is never taken back, and a
  file moved aside only ever returns over nothing).
  - `types`, `text`, `jwt`, `digest`: data model, string and token helpers.
  - `identity`, `live`: credential validity, shared logins, and how auth.json
    resolves against the catalog.
  - `catalog`, `activation`, `refresh`: catalog operations, guarded activation,
    deletion and import, storing refreshed tokens.
  - `backup`: slim (`css1.`) exports and encrypted full backups.
  - `files`: paths and the file publication protocols, as state machines.
  - `process`, `oauth`, `web`, `usage`: process detection, the OAuth callback
    and login completion, HTTP routing and authorization, usage helpers.
  - `warmup`: the message of a warm-up response (SSE data payloads, the last
    model text in a JSON value).
- `tests/` — tests of the library on concrete values.
- `app/` — the web server: HTTP, files, locks, processes and network requests,
  driving the library's decisions.
