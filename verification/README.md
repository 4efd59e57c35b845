# routerfuel

A bring-your-own-key gateway between an application and the providers of language models. It routes
a request to a model, pays with the client's own key, answers from a cache where it can, takes a
failing provider out of rotation, and stops a client that loops or overspends.

- `src/` is the library: everything the gateway decides and computes, verified with Verus.
- `app/` is the server around it: sockets, the database, the embedding model, files.
- `tests/` are the library's tests.

| Module | What it decides |
| --- | --- |
| `flow`, `exchange` | the course of a request, from its admission to its settlement |
| `gateway` | who pays for a call, which model is called, what a client is told |
| `calls`, `connectors`, `vision`, `provider` | what each provider is sent and what is made of its answer |
| `shadow` | comparisons with a second model |
| `circuit_breaker` | when a provider is left alone, and when it is tried again |
| `guardrails`, `rate_limiter`, `client_registry`, `concurrency` | when a client or a call has to wait or is stopped |
| `semantic_cache` | what is cached, under which key, and for whom |
| `tokenizer`, `embedder` | which tokenizers are asked, and what the embedding model is handed |
| `telemetry`, `report` | what is recorded and reported |
| `text`, `csv`, `money`, `json`, `digest`, `clock` | what the others build on |

Money is counted in micro-cents and time in nanoseconds. Whatever depends on the time takes it as an
argument; beside each such function stands one that reads the clock.
