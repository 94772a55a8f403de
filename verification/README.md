# api_runtime

The image runtime of a canvas application that talks to an OpenAI-compatible
API directly: a message becomes a prompt, the prompt an image, and the image an
asset and a placement on the board that the message came from.

`src/` holds the decisions, each with a contract that Verus proves:

- `text`, `json`, `codec`, `files`: text operations, JSON documents, base64 and
  image formats, file paths
- `settings`: what the API is reached with
- `skills`, `prompt`: what a message is sent as
- `board`: what a message refers to, and how an image enters the board
- `request`, `reply`: what the API is asked and what it answered
- `registry`, `session`, `start`: the open sessions, their timelines and turns
- `records`, `turn`, `send`: what a turn leaves behind, and the course of a
  message from its arrival to the end of its turn

Work outside the library (files, the network, the board's own storage) is asked
for by the value that a function returns, and its outcome is handed back to the
next one. `app/` does that work, with the rest of the application behind the
trait `Host`.

What is believed without proof stands next to the wrapper that makes the call:
JSON parsing (`serde_json`), base64 (`base64`), image signatures (`image`), MIME
types (`mime_guess`), random ids (`nanoid`) and path components (`std::path`).
