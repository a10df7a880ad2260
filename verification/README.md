# aether_matrix

A Matrix AI assistant bot: OpenAI-compatible chat with streamed replies,
per-user and per-room sessions, image understanding, personas, a command
system with three permission levels, tool calling (a built-in web fetcher and
external MCP servers) and the cyber wooden-fish game.

The decisions of the bot are a library verified with Verus:

- `src/command` — prefix detection and quote-aware parsing, permissions, the
  command registry and its help, and the routing of command messages;
- `src/conversation.rs`, `src/ai.rs` — session histories with their length
  limit, and what one chat turn records and sends;
- `src/event.rs`, `src/streaming.rs` — what a room message leads to, and the
  throttling of streamed replies;
- `src/config.rs`, `src/mcp` — settings from the environment, tool servers and
  their retry back-off, the tool registry and the web-fetch tool;
- `src/muyu` — cooldown, combos, merit, drops and titles of the game;
- `src/ui.rs`, `src/admin.rs`, `src/meme.rs`, `src/persona.rs`, `src/media.rs`
  — message templates and the texts and checks of the commands.

Laws that span several calls are stated as public proof functions named
`law_*`.

`app/` is the program around the library: Matrix login and sync, the HTTP and
chat-completion requests, the MCP child processes, SQLite storage and image
scaling.
