# lynx

The rule engine of an intercepting HTTP proxy, written in Verus and proved against its
contracts.

- `src/` is the verified library:
  - `matcher` — capture conditions (glob, regular expression, exact, contains; AND, OR,
    NOT), a cache of compiled rules keyed by rule id, and the selection of the rules that
    match a request, highest priority first;
  - `validator` — the checks a rule passes before it is stored;
  - `processing` — the handlers that run for the matched rules and in what order, the block
    and delay handlers, and the steps of processing a request as a state machine;
  - `response_info`, `common`, `headers`, `json`, `types`, `handlers`, `error` — the message,
    header, JSON and rule models the above work on, with body display and header extraction;
  - `api_debug`, `mock`, `self_service` — saved debug requests, the mock server's routes and answers, and
    the recognition of requests for the proxy's own service.
- `app/` holds what the verifier does not see: serde forms of the library's types, conversions
  with axum and `serde_json`, and the async loop that performs the steps the library decides.
- `tests/` runs the library on concrete values.

The laws the library keeps are public proof functions named `law_*`.
