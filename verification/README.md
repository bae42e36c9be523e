# extract_api

A document text-extraction HTTP service whose decision logic is verified
with Verus.

- `src/` — the verified library: request validation (`urls`), the per-file
  size limit (`files`), result identifiers (`ids`), the assembly of
  extraction responses in input order (`response`), error answers (`error`),
  the health report (`health`), settings read from the environment
  (`config`), cross-origin and bearer-token access rules (`access`) and the
  character helpers they share (`text`).
- `app/` — the server: HTTP routing, multipart streaming, temporary files,
  calls into the extractor, JSON encoding and logging.
- `tests/` — tests of the library.
