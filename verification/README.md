# dns_pool

A pool of DNS name servers whose decisions are verified with [Verus](https://github.com/verus-lang/verus),
together with the local servers, fixtures and lookups that show it at work.

A request to the pool goes to several connections at once. The first answer ends it; connections
that are busy are asked again after pauses that double and never add up to more than 300 ms; a
response that was cut, or the want of any connection, moves the request from datagrams to streams.

## Layout

- `src/` is the library. It does no input or output: its functions decide what to ask, how long to
  pause, what to answer and what a result is.
  - `pool`, `pool_send`, `name_server`, `config`, `conn_loop`, `conn_set`, `error`: the pool and
    the rounds of a request. `pool_laws`, `conn_laws` and `conn_journey` state what holds of every
    pool and every request.
  - `name`, `record`, `message`: the data of DNS. `wire_format` says which bytes stand for it,
    `wire_write` and `wire_read` convert, `wire_laws`, `wire_read_laws` and `wire_sizes` prove that
    what is written is read back.
  - `replies`, `wire_fixture`, `local_names`, `local_dns`, `lookups`: local servers and the lookups
    that are put to them.
  - `tls_setup`, `tls_exchange`, `encrypted`, `http_serving`, `body`, `streams`, `text`: authenticated
    transports.
  - `canonical`, `dnssec`, `signed_responses`, `keyset`, `signed_lookup`: signed records, with
    `canonical_laws` and `keyset_laws`.
- `app/` carries out what the library decides: sockets, timers, TLS, HTTP/2 and QUIC.
- `tests/` runs the library on concrete values, the outside crates included.

## What is trusted

The contracts of a few outside functions are believed, not proved. Each of them stands above a small
function marked `external_body` and names the function it speaks of:

- `smallvec` behind `conn_set::ConnSet`,
- `rand` in `conn_loop` (a number below a bound),
- the sorting of slices in `pool`,
- `bytes::Bytes` in `body`,
- `rustls` in `tls_setup` (roots, and what the settings of clients and servers hold).
