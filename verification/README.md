# sazid

The logic of a terminal chat client for language models, written in Verus: each
function states what it does in `requires`/`ensures`, and Verus proves it.

## Layout

- `src/` — the verified library:
  - `text` — characters, whitespace, UTF-8/UTF-16 widths, trimming, joining, decimal digits
  - `reflow` — greedy word wrapping of plain text (`WordWrapperStr`)
  - `paragraph` — horizontal alignment of a line
  - `json` — JSON values as the tools read them, and the deep merge of two values
  - `arguments` — validation of a tool call's arguments against its declared properties, and the messages of refusals
  - `tools` — the tools' declared properties and the definitions handed to the model
  - `registry` — which tools a session may call, which tool a call by name reaches, and the messages a call sends
  - `messages` — chat messages, their text, flags and receive state
  - `conversation` — a session's message lists and actions: upserting, streaming, the current exchange, the chat request
  - `table` — scrolling and selection of a table of rows of varying height
  - `movement` — cursor movement and positions in a text seen as its lines
  - `highlights` — the spans that draw selections and cursors, over the text's grapheme boundaries
  - `events` — how the session view answers events, moves and pages its selection, and mode switches
  - `edit` — editing a line of a file by byte range, and the report of the change
  - `query` — the workspace symbol query of the language server tool, and the symbols it selects
  - `lsp_frame` — framing of language server messages and reading their headers
  - `session` — session file names, model choice, number and range parsing
  - `config`, `status` — configuration defaults and checks, the status line
- `tests/` — tests of the library, run against the real outside crates.
- `app/` — a small command-line front end: reading input, files, the environment
  and processes, and printing what the library returns.
