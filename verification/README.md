# best_fit_jobs

A job board service: employers post jobs, candidates apply with a resume that
is scored against the job's tags, and users sign up and log in with session
tokens.

`src/` is a library verified with Verus:

- `scoring` — splitting a resume into words and counting the job tags it
  contains (`match_counts`), with the proof that a score never exceeds its
  number of tags.
- `job_flow`, `application_flow`, `account_flow` — the request handlers'
  decisions as state machines: each step takes an event (a part of the upload,
  the outcome of a store or upload call) and gives the next stage and the
  action to perform.  Proofs show that every request is answered at most once,
  that a stored application carries the uploaded resume and the score of its
  extracted text, that a password chosen at sign-up is accepted at login, and
  that sign-up keeps emails unique.
- `auth` — session claims and their expiry, and how a bearer token is taken
  from the Authorization header (its signature and expiry are checked in
  `app/`).
- `password` — bcrypt hashing and verification.
- `uploads` — Cloudinary addresses and replies, and where uploads are saved.
- `models`, `reply`, `submission`, `random`, `text` — the data the handlers
  pass around and small string utilities.

`app/` is the web server (actix-web, MongoDB, Cloudinary, PDF extraction)
that performs the actions the library decides on.
