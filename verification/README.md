# Adele

A terminal client for the Adele assistant. It shows conversations with the
assistant's daemon, streams its replies, and manages the daemon's connections,
knowledge base and MCP servers.

## Layout

- `src/` is the library: the state of the window and of its screens, what every
  key, signal and reply does to them, the rendering of Markdown and of code, the
  wrapping of text, the requests to the daemon and their replies, and the
  `config` commands. All of it is verified with Verus against the contracts that
  stand beside the code. Functions whose names begin with `law_` state what
  holds of several functions together.
- `app/` is the program around the library: the command line, the terminal, the
  websocket, the keyring, the configuration files and the drawing.
- `tests/` runs the library on examples.

What the library takes on trust is marked `external_body` or
`assume_specification`: calls into `ratatui-textarea`, `pulldown-cmark`,
`syntect`, `serde_json` and `unicode-width`, each with the facts that are used
of it.

## The shared reducer

The chat itself (which reply belongs to which prompt, what waits in the queue) is
kept by a reducer that all clients of the assistant share. The library hands out
the messages for it and takes its replies; `app/reducer.rs` runs it. That crate,
the hosting of MCP servers and the voice engine are not on the public registry.
