# mechanics_http_client

A small HTTP client whose decisions are verified with Verus.

- `src/` is the verified library. It does no I/O: where something has to be
  sent, received or looked up, it says what is to be done and takes what came
  of it.
- `app/` is the client around it, on hyper, rustls, quinn, h3 and mechanics-dns.
- `tests/` run the library with the crates that it calls.

## What is where

| Module | What it decides |
| --- | --- |
| `client`, `request` | settings, headers, what a request consists of, errors that are reported when it is sent |
| `uri`, `method` | which URLs are accepted, and which origin they name |
| `headers`, `body` | header maps of `http` and byte buffers of `bytes` |
| `send` | where HTTP/3 is tried, how often, and what comes of each outcome |
| `http3` | the phases of an HTTP/3 attempt, and reading an HTTP/3 body |
| `caches`, `origin` | what is remembered of an origin, and until when |
| `alt_svc`, `https_rr` | what servers and the DNS say about HTTP/3 |
| `response` | reading a body with a cap on wire bytes, and decoding it |
| `error`, `dns`, `tls`, `time`, `text` | errors, lookups, clock readings, strings |

Functions whose names begin with `law_` state what holds of the library as a
whole: that a cap decides whether a body is read, that a failed origin is left
alone until its time is over, that an HTTP/3 attempt is made again at its target
only if nothing was sent there, and so on.
