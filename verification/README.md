# chatbot (`cb`)

A voice assistant for the terminal: it listens, sends what it heard to an
OpenAI-compatible LLM, and speaks the reply through a speech service.

## Layout

- `src/` — the verified library (Verus). Every rule the assistant follows
  lives here with a contract: version comparison, sentence splitting,
  wake-word matching and the wake state machine, the speech service's
  binary frame codec and request bodies, configuration migration and
  validation, log rotation and listing, the dashboard's routing, daemon
  health checks, and the texts the program prints. Public `law_*` proof
  functions state properties that span several calls.
- `tests/` — tests of the library on concrete values.
- `app/` — the program around the library: argument parsing, terminal I/O,
  audio devices, the network, files, processes, and the code that works on
  floating-point samples and timings.
