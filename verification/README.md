# mcp-auth-proxy

A proxy in front of MCP servers. It injects credentials into the requests that it forwards, and
limits, per profile, which tools of an upstream a client can see and call.

- `src/` is the library. It holds the decisions: which configuration is accepted, where a request
  goes and with which headers, which tool calls are refused and how lists of tools are filtered, how
  credentials are resolved, the steps of the OAuth flow, what stands in the token file, and how
  messages are matched to the requests that wait for them. Every function states in its contract
  what it returns, and Verus proves it.
- `app/` is the program around the library. It reads files, runs commands, opens connections and
  serves HTTP. It also holds the table of routes, the formats that `serde` reads and writes, and the
  opening of KeePass databases, whose reader can panic on a damaged file. Where the library needs something from outside, it returns an action; the program
  carries it out and hands back what came of it.
- `tests/` runs the library on concrete values.

## Modules of the library

| Module | Contents |
|---|---|
| `config` | the configuration and its rules |
| `settings`, `tool_cache` | profiles, added servers, cached tools |
| `proxy` | routing, the settings API, the state of the proxy |
| `proxy::tools` | refused calls and filtered lists |
| `proxy::http_upstream`, `proxy::stdio_upstream`, `proxy::pending` | the two transports |
| `auth` | headers to inject; static tokens and OAuth |
| `credential` | 1Password, Bitwarden and KeePass |
| `storage` | the encrypted token file and the OS keychain |
| `mcp_logging` | what is logged of the traffic |
| `json`, `text`, `name_map` | JSON values, texts, maps by name |

Functions marked `#[verifier::external_body]` call other crates. Their contracts are not proved;
each says in its documentation what it claims of the function that it calls.
