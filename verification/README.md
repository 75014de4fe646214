# axum_admin

The verified core of an admin web backend, written in Verus.

- `src/` is the library. Every function in it is verified against its
  `requires`/`ensures` contract: bearer tokens (`jwt`), request contexts
  (`ctx`), the response-cache index and plans (`cache_index`,
  `cache_groups`, `cache_plan`), operation-log entries (`oper_log`), access
  decisions (`access`), upload paths (`upload`), the search conditions and
  rows the list and edit endpoints hand to the database (`role`, `search`,
  `links`, `outcome`), job status changes, job plans and cron checks (`job`, `cron`), units of the machine statistics (`machine`), and the
  text and UTF-8 facts these rest on (`text`, `utf8_facts`). The few calls
  into outside crates (identifier generation, token signing, the clock,
  date parsing, cron parsing) stand behind small trusted wrappers whose
  doc comments say what is assumed of them.
- `app/` is a small server around it: configuration loading, logging, the
  axum middlewares, a handful of routes (upload, machine statistics, cron
  check, test tasks), Skytable and file-system access. The database-backed
  management endpoints are not part of it; their decisions are in the
  library.
- `tests/` runs the library on concrete values.
