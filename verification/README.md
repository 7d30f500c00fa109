# alexandria

Agent memory: what is stored, how it is found again, and which reminders come due, decided by
functions that Verus verifies.

The library holds decisions and no effects. The program around it reads the store, embeds texts, asks
the clock and the network, hands in what it found as plain values, and carries out what comes back.

| Directory | What is in it |
| --- | --- |
| `src/` | The verified library |
| `tests/` | Its tests, on concrete values |
| `app/` | The server around it: the tools, the debug pages, the embedding model, the store's interface |

In `src/`:

- `text`, `numbers`, `time`, `failure`, `json` are what the rest is written in. Text is a sequence of
  characters, and an error is a chain of messages.
- `fires`, `reminders`, `reminder_rows`, `set_reminder`, `delivery`, `reminder_laws` schedule, store,
  deliver, list and cancel reminders.
- `chunking`, `clusters`, `ranking`, `recall`, `memories` import, cluster, rank, recall and update
  memories. Similarities are floating point outside and scores inside: integers in the same order.
- `hub` and `migrate` are state machines for fetching a model and for re-embedding a corpus.
- `server` and `tools` hold the settings and the parameters of the tools.
- `debug` builds the pages of the debug UI and guards their routes.

What comes from `chrono`, `chrono_tz`, `cron`, `base64`, `serde_json` and `uuid` is called through
small functions whose contracts are believed, each with a comment that says what it claims.
