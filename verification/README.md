# fluss

The client-side core of Fluss, a streaming storage, verified with Verus: table
metadata, schemas and their field ids, rows and their binary formats, key
encodings, record batches, and the steps of lookups and limit scans.

- `src/` is the verified library.
  - `metadata`: types, schemas, table descriptors, paths, buckets, configuration.
  - `row`: values, rows, the compacted and the Iceberg format, key encoders and
    decoders.
  - `record`: change types, scan records, batches of value records.
  - `client`: which lookups a table allows, how a lookup and a scan go on from
    one event to the next, and what they find.
  - `rpc`: api keys and the messages of a limit scan.
  - `text`, `name_list`, `property_map`, `little_endian`, `byte_buffer`,
    `compression`, `error`: what the others are built on.
- `app/` drives lookups and scans over the network, hands record batches to
  Arrow, and stores metadata.
- `tests/` runs the library.

Single- and double-precision numbers are held by their bits.
