# hath_rs

The verified core of a client for a content distribution network: it keeps a cache of files,
serves them to other clients, and talks to the servers that direct it.

- `src/` is the library. Everything in it is checked by Verus: what a function takes and gives is
  stated in its contract, and the laws of a module stand beside its functions as proof functions.
- `app/` is the program around it: the network, the file system, clocks and logs. It hands plain
  values to the library and does what the library decides.
- `tests/` runs the library.

| Modules | What they hold |
| --- | --- |
| `text`, `number`, `ip`, `url`, `types`, `hvfile`, `utils` | texts, numbers, addresses, file IDs, digests |
| `config`, `rpc`, `rpc_client` | settings, signed calls to the servers, and which server is asked |
| `cache` | marks of recent use, pruning, startup, and the state that is kept between runs |
| `server` | admission, sessions, requests, answers, bodies, certificates, start and stop |
| `downloader`, `proxy_downloader`, `gallery_downloader` | downloads, and when they are tried again |
| `bandwidth`, `stats`, `logging`, `error` | limits, counters, log files, errors |
| `client` | the life of the client from start to end |
| `migrate` | import of a cache's state from a stream |

A few functions call other crates (digests, certificates, URLs, serialized tables). Each such call
stands in a small wrapper whose doc comment says what is taken for granted of it.
