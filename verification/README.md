# herdr-simple-mcp

A thin, stateless MCP server that offers [herdr](https://github.com/ogulcancelik/herdr), a
terminal-native agent multiplexer, as tools. herdr's daemon owns all state; each tool call
becomes one line of JSON on its Unix socket, and one line comes back.

The logic is a library verified with [Verus](https://github.com/verus-lang/verus); the program
around it does input and output.

## Layout

- `src/`: the library.
  - `manifest`, `contract`, `bundled`: the tool contract, and the methods that it declares.
  - `schema`: the input schema of a method, and the check of call arguments against it.
  - `config`: which tools a profile, groups, and allow and deny patterns enable.
  - `server`: the tools that are offered, which calls are let through, what they give back.
  - `herdr`: socket paths, deadlines, request lines and response lines.
  - `version`: the warning about a daemon of another minor version.
  - `json`, `yaml`, `ordered`, `text`: the values that the rest is stated over.
  - `laws`: what holds of the library as a whole, proved.
- `app/`: the program: environment, socket, MCP routes, logging.
- `tests/`: tests of the library from outside.

What the proofs take on trust is marked `external_body` or `assume_specification` in `src/`:
`serde_json`, `serde_yaml`, `rmcp`'s JSON content, and a few functions of the standard library.

## Settings

The socket is looked for at the explicit path, then at that of the session, then at
`~/.config/herdr/herdr.sock`; the first that exists wins.

| Variable | Meaning |
|----------|---------|
| `HERDR_SOCKET_PATH` | Explicit socket path |
| `HERDR_SESSION` | Uses `~/.config/herdr/sessions/<session>/herdr.sock` |
| `HERDR_MCP_TIMEOUT_MS` | How long to wait for an answer to a request that does not say |
| `HERDR_MCP_PROFILE` | `full` (default), `coordinator`, `client`, `observer` |
| `HERDR_MCP_GROUPS` | Comma list of groups; overrides the profile |
| `HERDR_MCP_ALLOW` | Comma list of methods and `prefix*` patterns to add |
| `HERDR_MCP_DENY` | Comma list of methods and `prefix*` patterns to remove; wins |
