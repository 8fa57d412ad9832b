# niche

A terminal coding assistant: it talks to an OpenAI-compatible chat API, lets
the model call a small set of file and shell tools, and keeps conversations as
sessions on disk.

The decisions and text handling live in `src/`, written in Verus with their
contracts proved:

- `agent`: one turn of the agent loop as a state machine (model reply, tool
  results, round limit), and the lines shown for tool calls and results.
- `tools/`: argument reading, the edit rules (quote normalisation, unique
  match, stale-read guard), grep and glob reports, directory listings, the
  batch schedule that runs read-only tools first and answers in call order.
- `commands`, `repl`, `session`, `file_ref`: slash commands, the input loop's
  state, session titles, ids, listing order and ages, `@file` references.
- `config`, `client`: `$VAR` resolution and the request and response shapes.
- `text`, `sort`: the string, number and ordering functions the rest is
  stated over.

`app/` holds what needs the outside world: the program's entry point, file,
process and network I/O, the JSON wire types, and the loops that perform the
actions the library decides.
