# twow-gm-tool

A small control plane for game masters. It takes HTTP requests that carry a signed
token, turns them into console commands of the game's world server, and hands those to
a sink: the queue in the database (`pending_commands`), or the world server's own HTTP
API.

What the service decides is a Verus library under `src/`, with contracts that say
exactly what each function returns. The program around it, under `app/`, does the work
that the library asks for: sockets, processes, the environment, the reading of JSON.

## API

The `POST` endpoints require `Authorization: Bearer <JWS>`: a compact JWS with the
algorithm `HS256`, signed with `GM_TOOL_JWS_SECRET`, from the expected issuer, for the
expected audience, not expired and already in effect.

- `GET /healthz`
- `GET /readyz`
- `POST /api/v1/gm/commands`: `{"command": "...", "realm_id": 1, "run_after_seconds": 0}`
- `POST /api/v1/gm/revive`: `{"character": "...", "realm_id": 1}`
- `POST /api/v1/gm/teleport`: `{"character": "...", "teleport": "...", "realm_id": 1}`

Raw commands lose their leading dots, and must be covered by the allowlist.

## Environment

| Variable | Default |
|---|---|
| `GM_TOOL_BIND_ADDR` | `0.0.0.0:8080` |
| `GM_TOOL_SINK_MODE` | `pending_commands` (or `direct_world_http`) |
| `GM_TOOL_COMMAND_ALLOWLIST` | empty; entries with commas between them |
| `GM_TOOL_JWS_SECRET`, `GM_TOOL_JWS_ISSUER`, `GM_TOOL_JWS_AUDIENCE` | required |
| `TWOW_DB_HOST`, `TWOW_DB_USER`, `TWOW_DB_PASSWORD`, `TWOW_LOGON_DB` | required |
| `TWOW_DB_PORT` | `3306` |
| `GM_TOOL_DEFAULT_REALM_ID` | `1` |
| `GM_TOOL_WORLD_TIMEOUT_SECONDS` | `5` |
| `GM_TOOL_WORLD_BASE_URL`, `GM_TOOL_WORLD_API_KEY` | required in `direct_world_http` mode |

## What is proved

The contracts are stated over models of texts, tokens, requests and commands. On top
of them stand the laws in `src/exchange_laws.rs`, `src/json_laws.rs`, `src/laws.rs` and
`src/world_laws.rs`. Among them: a command reaches the sink only on a request whose
token was accepted, every exchange ends with a reply, a command written into the SQL
statement reads back as itself (one with a backslash in it only on a server whose mode
takes backslashes literally), and a request to the world server carries its body whole.

What is not proved is stated where it is relied on: the functions that call `base64`,
`hmac`, `http`, `serde_json` and std name what they take on trust.
