# torii

The core of a desktop HTTP client, verified with Verus: the decisions the
client makes about workspaces, collections, requests, tabs, secrets and
responses, each with a contract over a mathematical model.

## Layout

- `src/` — the verified library.
  - Stored entities and their ids: `domain`, `ids`, `item_key`, `repos`.
  - The workspace tree and catalog: `workspace_loader`, `workspace_tree`,
    `collection_store`, `request_draft`.
  - Window and editor state: `tab_manager`, `workspace_session`,
    `session_restore`, `request_editor_state`, `kv_table`,
    `request_inputs`, `sidebar`.
  - Building and sending a request: `variable_resolution`,
    `stored_variables`, `auth`,
    `request_body`, `url_params`, `preflight`, `request_execution`,
    `error_classifier`.
  - Showing a response: `response_view`, `cookies`, `history_view`,
    `http_method`.
  - Secrets and start-up: `secret_manager`, `recovery`.
  - Text helpers: `text`.
- `tests/` — tests of the library on concrete values.
- `app/` — the unverified edge: float formatting, adapters from `http`,
  `reqwest` and `anyhow` values to the library's plain values, and the UI
  preferences file.

Calls into outside crates (uuid, url, http, cookie, serde_json,
serde_urlencoded, base64, x509-parser, time through cookie, anyhow, tokio-util) sit
behind small trusted wrappers whose doc comments say what their contracts
claim.
