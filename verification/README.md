# webpilot

Browser control for AI agents: a command line, an MCP server, and the native messaging host of a
browser extension.

`src/` is the verified library: what each command sends, how it reads what comes back, and what it
prints; the state of a DevTools connection; the host's version handshake and request routing; the MCP
message loop; the rules that say which operations are let through; and the rules for setting up,
updating and removing the program. Every function states in its contract what it returns, and the
`law_*` proof functions state what holds across functions. There are two exceptions:

- A function with a `requires` states it for the inputs that meet it. These are few: what cannot be
  asked for on the command line, a clock that ran backwards, a step that does not befit its stage.
- `commands::picture::diff_screenshot` states what is decided from the two pictures, and leaves open
  what the decoder makes of the bytes, where that rests on the machine.

What other crates compute is named, not described: how JSON is read and written, digests, letters in
lower case, and which shortest difference two texts have. The wrappers that call them say so.

- `json`, `text`, `codec`, `paths`, `model`: values and texts.
- `fields`, `action`, `url_glob`: strict reading of arguments, the actions they describe, and patterns
  for addresses.
- `error`, `output`, `protocol`: what commands fail with, print, and are answered.
- `cdp`, `pending`: one DevTools connection, its sessions and its waiting requests.
- `host`: the native messaging host.
- `mcp`, `tools`: the MCP server and the tools it offers.
- `cli`: which command goes where.
- `commands`: each command, and `commands::setup` for setting up.
- `headless`: the same commands over a DevTools connection, with the code in the page.
- `assets`, `lockfile`: what is written to disk, and file locks.

`app/` is the program around it: arguments, files, sockets and processes.

`tests/` runs the library on concrete values.
