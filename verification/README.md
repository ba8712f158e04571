# mochi

A local-first terminal pet companion backed by a llama.cpp server: it chats,
calls tools (Read, Glob, WebSearch, WebFetch, Bash, Write, Edit, MultiEdit),
remembers durable facts
about its user, and takes on personas from `SKILL.md` files.

The decisions of the program live in the Verus-verified library under `src/`:

- `memory`, `memory_laws`: the fact table (kinds, ACTIVE / STALE / UNKNOWN
  status, at most one active fact per slot), its listings and the memory
  section of the system prompt, with the laws the table keeps.
- `memory_capture`, `memory_judge`, `memory_query`: prompts for the model and
  the parsers and rankers of its answers (fact extraction, the four-way
  same-slot judge and the re-check of state facts after a replace, restating,
  observing, consolidating, query planning and fact matching).
- `session`: the system prompt, the runtime settings, and the tool loop of a
  prompt turn as a state machine (`ToolLoop::step`).
- `slash`, `commands`, `repl`: what each slash command and REPL line asks for
  and what it reports.
- `tools`: tool specs, permission gating, and the pure work of each tool
  (edits, read windows, glob and file-name searches, output reports, HTML to
  text, DuckDuckGo result parsing, URL form encoding).
- `skills`, `pet`, `llama_server`, `agent`, `cli`, `text`, `tokens`: skill
  files, pet sprites, server settings, chat messages, presets, and the text
  utilities the rest is stated over.

`app/` is the program around it: argument parsing, the SQLite file behind the
fact table, HTTP streaming to llama.cpp, the managed `llama-server` process,
tool side effects, and the two stdin loops (`mochi` for the tool-using
session, `mochi chat` for the plain REPL).
