# liter_llm

Verified core of the liter-llm language bindings, written in Verus.

- `src/` — the verified library:
  - `case`, `case_laws`: snake_case / camelCase identifier conversion and its
    properties (round trip, preserved leading and trailing underscores, ...);
  - `json`: the JSON model the library reads, with recursive key conversion;
  - `config`: cache, rate-limit, budget-enforcement, auth-header and custom
    provider settings parsed from JSON;
  - `error`, `client`: error labels and client construction from binding options;
  - `provider`: the provider trait, built-in providers and model routing;
  - `cache`: storage paths, expiry and lookup decisions of the persistent cache;
  - `format`: which formatter command runs on generated code of each language;
  - `types`: request and response types;
  - `text`: the std character and string operations used above.
- `app/` — serde, Tokio, OpenDAL and process edges around the library.
- `tests/` — tests of the library.
