# gpt-copy-v4 backend core

The verified core of a local chat backend that stores conversations in SQLite
and forwards them to OpenRouter.

- `src/` is the library, checked by Verus:
  - `text`: white space, trimming, first line, in characters.
  - `config`: the configuration from the environment's values (loopback-only bind address).
  - `error`: application errors, their codes, public messages and HTTP statuses.
  - `models`: what clients send and receive.
  - `db`: the stored records and the title a conversation takes from its first message.
  - `openrouter`: provider errors, the request URL, the status check, completion
    extraction, and the line-by-line decoding of the provider's event stream.
  - `routes`: request validation, the provider turn, the streamed-answer protocol
    and the CORS origin check.
- `app/` is the server around it: environment, SQLite, the HTTP client, axum routes,
  and the serde copies of the library's types.
- `tests/` runs the library on concrete values.
