# nacs_backend

The rules of a WebDAV server that records file events in SQLite and replicates
files between peers on the local network, written and verified in Verus.

- `src/` is the library. Each function states what it returns or changes; the
  laws that hold across functions are public proof functions named `law_...`.
  Reading and writing files, sockets and the database are not done here: the
  library says what is to be done and is told how it went.
- `tests/` runs the library with the crates that it calls.
- `app/` is the program: it serves WebDAV and the REST API, keeps the SQLite
  database and runs the libp2p swarm, and does what the library decides.

## Running

Credentials are read from `WEBDAV_USER` and `WEBDAV_PASS`, which must be set.
`WEBDAV_HOST` and `WEBDAV_PORT` (default `127.0.0.1:4918`), `API_HOST` and
`API_PORT` (default `127.0.0.1:3000`) and `P2P_PORT` (default `4001`) say where
to listen. Files are kept in `./data`; the database and the identity of the
node in `./sqlite`.

`OPTIONS` requests need no credentials, all other WebDAV methods require Basic
Authentication.

## What is trusted

Calls into other crates stand behind small functions whose contracts are
believed: CRC-32 and SHA-256, Base64, HTTP header maps and status texts, the
encoding of libp2p identities, and chrono's timestamps. Of the standard library,
the same holds of `String::push`, `String::from_utf8` and
`String::from_utf8_lossy`. Each says above it what is claimed of the call.
