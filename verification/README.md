# philharmonic-connector-impl-dns

The `dns_query` connector of the Philharmonic workflow orchestration system,
with its policy logic proved correct.

- `src/` is the library: record-type allowlist, zone allowlist and blocklist
  (final-label suffix matching, ASCII-case-insensitive, blocklist overriding
  the allowlist), timeout selection and clamping, normalization of config
  zones and query names, and the mapping of resolver outcomes to connector
  responses and errors. Every function carries a contract that states its
  result exactly, and `policy.rs` holds the laws of zone matching
  (reflexive, transitive, case-insensitive, and kept when any dot-free label
  is put in front of the name).
- `app/` wires the library into the connector API: JSON decoding and
  encoding, record-type recognition and the resolver call through
  `mechanics-dns`, and the timeout around that call. `app/` calls the
  resolver only after the library has accepted the request, so refused
  queries cause no resolver I/O; that ordering lives in `app/` and is not
  part of what `src/` proves.
- `tests/` exercises the library on concrete values.
