# markflow

The backend of the MarkFlow Markdown editor (Tauri, desktop and Android),
split into a verified library and the application around it.

- `src/` is the library, written in Verus. Every decision the backend takes is
  a function with a contract: the chat request sent to an OpenAI-compatible
  endpoint and the answer drawn from its reply (`chat`), the crash-safe save
  and load of the session document as a step-by-step task with its laws
  proved over a model of the three files (`session`), single-instance start-up
  and the queue of files to open (`instance`), untitled-document recovery
  (`documents`), Android drafts with their crash-safe save and system file
  access replies (`drafts`),
  shell commands and modification times (`platform`), and the string and JSON
  text operations these rest on (`text`, `json`).
- `app/` is the Tauri application: commands, file, network and process I/O,
  and the entry points. It performs the steps the library names.
- `tests/` runs the library on concrete values.
