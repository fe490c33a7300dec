# rinha_backend_2026

Fraud scoring by nearest neighbours, verified with Verus.

A request is mapped to 14 features, quantised to signed bytes and compared with
labelled reference vectors that are stored in clustered lists. The labels of the
five nearest decide: three frauds of five refuse the transaction.

- `src/` is the verified library.
  - `single`, `formula`: single-precision numbers as bit patterns, and arithmetic on
    them as formulas
  - `request`, `clock`, `vectorize`: requests, points in time, features
  - `quantize`, `distance`: quantised vectors, and distances between vectors
  - `top_k`, `ranking`, `search`: the nearest candidates, the order of the lists, and
    the search itself
  - `decision`, `heuristic`: the answer, and the fallback rules
  - `json`, `records`, `cli`, `evaluation`, `text`: the evaluation against labelled
    records
- `app/` is the evaluation program: files, floating-point arithmetic, JSON forms.
- `tests/` runs the library.

What the library proves of its own code it proves from the contracts of a few
functions of `chrono`, `serde_json` and the standard library; each of those is
marked `external_body`, and its comment says what is taken on trust.
