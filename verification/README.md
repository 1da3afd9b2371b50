# codesmith

A local, execution-only coding assistant: it chats with a model served on the
machine (Ollama, vLLM, LiteLLM or any OpenAI-compatible endpoint), proposes
shell commands, runs them only after the user approves, and keeps a small
Markdown wiki of what it learned from files and command runs.

## Layout

- `src/` is the library, written and proved with Verus. Every public function
  carries a contract over mathematical models (`Seq<char>` for text, views of
  the data types), and the laws that tie several functions together are public
  proof functions.
  - `policy`: which commands are blocked, which need approval, and at what
    risk; a working directory outside the workspace (by its components as
    written, or once `.` and `..` are resolved) and destructive patterns are
    blocked.
  - `agent`: reading the model's reply as text or as a JSON command proposal.
  - `json`: the kind of the JSON value at a pointer, as serde_json reads it;
    `agent` and `llm` pick the members they need from it.
  - `cli`, `runs`: the REPL grammar, approval answers, and what happens to a
    proposal (preview, refusal, run) before and after it runs.
  - `settings`, `types`: model profiles and the settings they are kept in.
  - `wiki`, `search`, `context`, `lint`, `sources`: the wiki page format and its
    round trip, search ranking, query context within a byte budget, lint
    findings, and the source record file.
  - `reports`, `ui`, `desk`, `llm`, `runner`: the text of each report, the
    decisions of the desktop session, the OpenAI wire details, and the end of a
    command run.
  - `text`, `path`: string and path helpers with their lemmas.
- `tests/` runs the library on concrete inputs.
- `app/` is the command-line program around the library: argument parsing,
  the terminal, files, SQLite, HTTP streaming and child processes.
