# agentic

The rules of a task agent, verified with Verus, and the program around them.

The agent carries a task to its end: it sends the conversation and the schemas of its tools to a
model through `llm-adapter`, runs the tools that the model calls, and answers each call. It stops
when the model calls `finish` or replies without calls, when the turns are spent, when the same call
comes three times in a row, or when the user breaks in. It saves the task after every turn, and
resumes it by its id.

## Layout

- `src/` is the library. It decides, and every item of it is verified.
  - `chat`: the session that carries a task, as a function from what happened to what to do next;
    `chat_laws` states what holds of it over many steps
  - `tools`: what a call asks for; `security`: which commands are held back; `reports`: what came
    of an action, as the model is told; `schemas`: the tools as they are offered; `tool_laws`: what
    holds of them as a whole
  - `llm`: messages, the request, the reply and its errors; `inline`: a closing call that the model
    wrote as text
  - `todo`: the todo list; `state`: saved tasks; `records`: messages and tasks as JSON, and read
    from it again; `ids`: ids for new tasks, and the time
  - `cli`: what commands refuse and print; `tui`: what the terminal shows and what its keys do
  - `json`, `text`, `order`, `paths`: values, texts, alphabetical order, joined paths
- `app/` is the program: the command line, files, processes, the terminal, Ctrl+C.
- `tests/` runs the library.

## What is taken on trust

Calls into other crates and a few functions of the standard library stand behind declarations whose
contracts are believed: reading and printing JSON (`serde_json`), the clock (`chrono`), random ids
(`uuid`), lower case and lossy decoding (`std`). Each says in its comment what it claims.

## What holds of the agent

- Without `--yes` no destructive command is run, whatever the model replies.
- Every call of a turn is answered under its id, in order, before the turn is saved.
- A task is stuck exactly at the third of the same calls in a row.
- No more turns are taken than are allowed, and every task comes to an end.
- A saved task reads back from its text as it was, and goes on exactly where it was.
- Every error that a tool answers with names the next step.
- A file is replaced by one that was written in full, or not at all.
- An update of the todo list enters all of its items or none.
- A chat that is left while its task runs exits as interrupted; once the task has ended, its exit
  code stays.
