# api2convert

A client library for the API2Convert file-conversion API, written in Verus.

`src/` is the verified library. It builds every request the client sends
(account requests, uploads, downloads), takes every decision on what comes
back (retry or deliver, the typed error of a status, redirect handling, the
poll schedule), and holds the data model: JSON values, jobs and their parts,
cloud-storage descriptors, option builders, error texts, credential
redaction, webhook signature checks, and where a download is saved. Each
public function states its result in its `ensures`; the properties that span
functions are public proof functions next to the code they speak of.

`app/` is the client around it: HTTP through `reqwest`, files, the clock,
sleeping between attempts, jitter in floating point, and conversion between
`serde_json` values and the library's JSON model.

`tests/` exercise the library on concrete values.

Modules of `src/`:

- `json`, `text`, `parse`, `numbers`, `nearest`, `data`: the JSON model and the text and
  number handling that reading a payload needs.
- `models`, `enums`, `cloud`, `convert_options`, `client`: what the API sends
  and receives.
- `errors`, `redact`: the typed errors and the masking of secrets.
- `transport`: headers, URL encoding, `Retry-After` and HTTP dates, request
  building and the response and retry decisions.
- `config`, `poll`, `resources`, `upload`, `download`, `paths`, `rng`,
  `webhook`, `version`.
