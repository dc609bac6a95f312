# codex_auth

Decides which Codex OAuth token to serve, when to refresh it, and what to do with
the token endpoint's answer. The library is written in Verus; its contracts and
laws are checked by proof.

- `src/rules.rs`, `src/tokens.rs`: the decisions on plain values.
- `src/model.rs`: the manager as a state machine over mathematical values.
- `src/manager.rs`: `CodexAuthManager`, whose methods carry out that state machine.
- `src/storage.rs`, `src/token_store.rs`: where the tokens are kept.
- `src/laws.rs`, `src/trace.rs`: what holds of the manager as a whole, among it that
  one token request flies at a time and that its outcome serves every waiting caller.
- `app/`: the same manager with a network, shared by threads.

The manager never blocks and never does I/O. `get_auth` and `force_refresh` hand out
credentials, or a request to send, or the advice to wait for the refresh under way;
`receive_failure`, `receive_status`, `receive_denial` and `receive_tokens` take back
what came of the request.
