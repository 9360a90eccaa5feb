# locally-euclidean

A service that keeps blobs for buck2: it speaks the subset of the Manifold API
that buck2 uses for its logs and `buck2 rage` output, and stores everything in
Postgres.

* `PUT /v0/write/:filename?bucketName=:bucketName` creates a file (201). If it
  exists with the same content, that is fine (200); otherwise it is a conflict
  (409). The request's `Content-Type`, or `text/plain`, is kept with the file.
* `POST /v0/append/:filename?bucketName=:bucketName&writeOffset=:writeOffset`
  appends to a file that ends at the offset or before it (200). If the file is
  longer and holds the data at the offset, that is fine (200); otherwise it is a
  conflict (409).
* `GET /explore/:bucketName/:filename` shows a file.
* `GET /v1/logs/get/:id` shows a buck2 log.

Uploads over `max_upload_size_mb` and of Content-Types that are not in
`allowed_content_types` are bad requests (400).

## Layout

`src/` is the library, verified with [Verus](https://github.com/verus-lang/verus).
It decides everything and touches nothing: request handlers are machines that
say which action to carry out next and are told its outcome.

| module | what it holds |
| --- | --- |
| `exchange` | the actions and events of request handlers |
| `upload`, `explore`, `range` | the handlers, and comparing bodies with files |
| `store` | what requests do to the stored files: the laws of the service |
| `postgres`, `blob`, `sql` | the statements of the Postgres backend and what their outcomes mean |
| `file_backend`, `dirs`, `path` | the filesystem backend |
| `headers`, `errors`, `config`, `time`, `span`, `tasks`, `text` | the rest |

Where the library leans on another crate (camino, chrono, http, httpdate,
humantime, nix) or on a part of std that Verus knows nothing of, a small wrapper
states what is relied on.

`app/` is the service around the library: HTTP, the database, the filesystem
and the command line. `tests/` runs the library against stores in memory.
`extras/migrations/` is the database schema.
