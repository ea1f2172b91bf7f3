# chris_code

A terminal chat client for a language model that can call tools (read a
file, write a file, run a shell command). The library in `src/` holds the
application's logic, verified with Verus; `app/` is the program around it:
the terminal, the threads, the network client and the file and process work.

Library modules:

- `state` – the application state, its messages and its view.
- `events` – the events and `handle`, the only function that changes the
  state, with the laws of the streaming lifecycle and of the history.
- `ui` – what the screen shows for a state: the layout, the message lines,
  the input bar and the cursor.
- `llm` – the conversation with the model: tool definitions, configuration,
  the request that grows with each prompt, and what follows each completion.
- `tools` – what a tool call asks for and how its answer is worded.
- `input` – what the input worker does with what it reads.
- `json` – the JSON values that carry tool arguments and results.
