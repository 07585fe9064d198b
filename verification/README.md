# learn_server

The server behind a small quiz-and-accounts app: an HTTP API for sign-up,
login and user lookup backed by SQLite, and a WebSocket quiz where players
answer shuffled multiple-choice questions and earn points.

- `src/` is the library, verified with Verus: password hashing
  (PBKDF2-HMAC-SHA256, base64 storage), session tokens, the login decision,
  the quiz state (points table and connected clients), question shuffling,
  judging of answers, request routing, handler replies, and the bytes of
  the foreign-interface reply buffer.
- `app/` is the program around it: the SQLite storage, JSON (de)serialization,
  the `tiny_http` and `tungstenite` servers, threads and the FFI buffer copy.
  The question bank is read from `questions.json`.
- `tests/` exercise the library on concrete values.
