# rust_claw

The backend of an AI-agent chat service (axum + adk-rust, DeepSeek model),
with its decision logic written in Verus and proved against its contracts.

- `src/` — the verified library: settings and port parsing, business errors,
  health statuses and the status report, the unified response envelope, the
  agent service's assembly (model, agent, runner, session store), the
  identities and session ids of agent runs, the reply of a chat, and the SSE
  framing of a streaming chat as a state machine.
- `app/` — the HTTP service around it: environment, logging, the async calls
  into the adk runner and session store, axum routes and the async loops that
  feed the library's state machine.
- `tests/` — tests of the library on concrete values.
