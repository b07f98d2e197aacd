# app_server_core

The rules of a CAD workbench's app server, as a verified library: how agent
tool calls are permitted, routed and checked, how their JSON arguments are
read, how workspace paths are normalized and confined, how CadQuery run
requests and model sources are validated, how plan packages are named and
rendered, how chat history, the chat index and turn context are kept, how
streamed completions are read and accumulated, and how file-watch events are
coalesced.

- `src/` is the library. Every function in it carries a contract that Verus
  proves; the few calls into `std`, `sha2`, `serde_json` and `getrandom`
  stand behind small trusted wrappers whose doc comments say what they
  claim.
- `tests/` runs the library on concrete values.
- `app/` is the plain Rust around it: JSON replies, the tool schemas, the
  file-watcher thread, the completion-stream reader loop, the configuration
  files, and the file-system work of the file tools (resolving paths,
  walking, reading and writing), whose decisions the library makes.
