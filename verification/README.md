# nvim-mcp

An MCP server that lets a client drive running Neovim instances: it discovers them,
connects over Unix sockets, named pipes or TCP, and offers tools and resources to
list buffers, run Lua, read documents, report the cursor and navigate.

## Layout

- `src/` is the library, verified with Verus. It holds the decisions of the server:
  - `startup`: the `--connect` mode, the version banner, and what happens at startup.
  - `targets`: which announced sockets are offered, and in what order.
  - `client`: the connection state of one client, and how Neovim's answers become results.
  - `notifications`: the bounded store of notifications and the waiting tasks.
  - `documents`: document identifiers and the parameters sent to Neovim.
  - `server`: tool checks, errors, resources, tool listings and connection ids.
  - `http_compat`: the compatibility rules placed in front of the HTTP transport.
  - `keyed`, `logging`, `error`, `text`: a string-keyed store, log helpers, errors, text helpers.
- `app/` is the program around it: the command line, logging, the msgpack-rpc sessions
  with Neovim, the MCP handler and the HTTP server. It reads and sends; the library decides.
- `tests/` exercises the library on concrete values.
