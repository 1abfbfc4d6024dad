# Yatch

A small OCI image registry: the logic as a verified library, and the programs around it.

- Blobs and manifests are kept in an object store: S3, or Cloudflare R2.
- Metadata is kept in SQLite, or in Cloudflare D1.
- Clients download blobs from the store; the registry redirects them there.

## Layout

- `src/`: the library. It does no input or output. A request is answered with a step: a reply, or
  something to ask of the database or the store. Whoever does the step hands the outcome back and
  gets the next one.
  - `oci_path`, `keys`, `digest`, `json`, `oci_error`, `types`: paths, names of objects, digests
    and JSON.
  - `config`, `db`, `storage`, `multipart`: settings, queries, the object store, and uploads in
    parts.
  - `reply`, `responses`, `step`: replies and steps.
  - `auth`, `params`, `manifests`, `blobs`, `uploads`, `routes`: the handlers.
  - `order`, `world`, `effects`, `laws`: what whole requests do, with a model of the database and
    the store.
- `app/`: the standalone server (`main.rs`, with Axum, S3 and SQLite) and the Cloudflare Worker
  (`lib.rs`).
- `tests/`: tests of the library, with a database and a store in memory.

## What is trusted

Every function of the library is verified, but for small wrappers around outside functions, each of
which says in its comment what it claims: SHA-256 (`sha2`), hexadecimal (`hex`), JSON strings
(`serde_json`) and random identifiers (`uuid`).
