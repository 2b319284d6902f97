# onlinesim-rs-api

A client for the OnlineSim SMS API whose core is verified with Verus.

## Layout

- `src/` — the verified library:
  - `text`, `json`: string helpers and a JSON value model with its compact text;
  - `util`: query encoding, the `response` status field, authentication
    parameters, lenient field readings;
  - `error`, `config`, `builder`: errors and the API error table, client
    configuration and its builder;
  - `api`: every API call as a request (path, parameters, method, `.php`
    suffix), and how a request is addressed and authenticated;
  - `wait_code`: the state machines behind `wait_code` (the shared poller
    and the single-operation wait);
  - `mock`: the state and answers of a local OnlineSim stand-in for tests;
  - `types`: API data types and webhook payload reading.
- `app/` — what Verus does not see: the async and blocking HTTP clients
  (`reqwest`), the polling loops (`tokio`, threads), the mock HTTP server
  (`wiremock`) with its state file (`fs4`), and the serde forms of the API
  types, including the readings that produce floats.
- `tests/` — tests of the library on concrete values.
