# Nota

AI personas that chat over OneBot and the web. The rules of the program are a
library that Verus verifies; a thin program around it does the I/O.

- `src/`: the verified library.
  - `text`, `number`, `table`: strings, decimal text and small maps.
  - `platform`: what is taken on trust from outside. Only the specification of
    `String::push` stands elsewhere, in `text`.
  - `domain/`: tools and their registry, conversations and routing,
    permissions, history, the agent loop.
  - `llm/`: the turn of a session, the Responses API, tool arguments, the
    order of stored sessions.
  - `infra/`: built-in tools, waits, the persona runtime, chat logs, the web.
  - `onebot/`: the OneBot adapter: messages, the bridge with its allowlist,
    reconnection, the adapter's tools.
  - `cli/`: the wizard and the start of the server.
- `tests/`: tests of the library.
- `app/`: the program `nota`: terminal, files, SQLite, HTTP and WebSockets.

Functions named `law_…` are proofs of what holds of the library as a whole.
