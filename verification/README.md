# axonerai

A type-safe agentic AI framework whose decisions are verified with Verus.

- `src/` is the library. Every function there carries a `requires`/`ensures`
  contract that Verus proves: configuration and JSONC handling, the service
  roster, skills and prompt patches, the tool registry and tool-round budget,
  the agent loop as a state machine, completion decoding, rollout and
  session log formats, models-config files and their JTD validation, the
  server's replies and turn state, and the built-in tools' text rules
  (path jail, listings, search result formatting, the calculator's
  tokenizer and parser). The few calls into serde_json, base64, scraper and
  jtd sit behind small trusted wrappers whose contracts name what the outside
  crate computes.
- `app/` is the program around it (`agt`): the command line, HTTP providers,
  the web server and websocket, file and directory I/O, and the calculator's
  floating-point evaluation. It hands the library plain values and performs
  the actions the library decides.
- `tests/` exercises the library on concrete values.
