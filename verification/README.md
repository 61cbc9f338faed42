# zyntax

The core of ZyntaxAI, a desktop grammar fixer: press a hotkey on selected
text and it comes back corrected by a language model of your choice (Google
Gemini, any OpenAI-compatible endpoint, or a local Ollama).

`src/` is the library, verified with Verus: every public function carries a
`requires`/`ensures` contract, and the properties the application relies on
are stated as proof functions next to the code they are about.

- `prompt`, `persona`, `language`, `speed`: what is sent to the model.
- `postprocess`, `diff`, `fix`: cleaning the reply and describing the change.
- `providers` (with `gemini`, `openai`, `ollama`): reading the providers'
  replies and model lists, what an HTTP status or a lost connection means,
  and when a failed request is sent again.
- `settings`: defaults, lookups, prices, and the normalisation of a saved
  settings file (sidebar layout, profiles, personas).
- `capabilities`, `platform`: what the desktop session is and allows, what a
  capture of the selection or clipboard gives, and how keystrokes are sent
  on Wayland.
- `flow`: the correction as a sequence of steps, each deciding the next
  piece of outside work.
- `commands`, `feedback`, `errors`, `updates`, `history`, `logging`, `paths`:
  what the application's commands, notices, updater, history, log and files
  compute.

`app/` is the command-line program around it: files, SQLite, the clipboard,
HTTP and helper processes.

`tests/` exercises the library on concrete values.
