# fortune_cookies

A node of a small cluster that elects a leader with the bully algorithm and shows a
fortune cookie fetched from that leader.

- `src/` is the verified library (Verus): every decision the node makes. Whom it
  challenges in an election and when it wins (`election`), how its state changes
  (`state`, `messages`), which peers it asks for their ids (`discovery`), the URLs and
  texts it builds (`address`, `text`), the port it listens on (`config`), what it makes of
  the leader's cookie reply (`cookie`) and its node id (`clock`). Contracts are stated over
  spec functions; the laws of the election are public proof functions.
- `app/` is the server around it (axum, tokio, reqwest, leptos): HTTP handlers, the
  election and discovery loops, which perform the requests the library decides on, and the
  page.
- `tests/` exercises the library on concrete values.
