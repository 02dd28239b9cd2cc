# voice-transcription

A transcription library with pluggable backends (local Whisper, AssemblyAI,
Google Cloud Speech, SpeechText.AI), whose logic is specified and proved
with Verus.

## Layout

- `src/` — the verified library.
  - `language.rs`, `language_laws.rs`, `table.rs`: language-code
    normalization per provider, and its laws (provider format, idempotence,
    pass-through of codes already in form, the round trip through a tag,
    indifference to surrounding white space and letter case, the default
    language, known codes staying known).
  - `audio.rs`: WAV header checks, cache file names (SHA-256 of path and
    modification time), the ffmpeg command and its failures, the cache
    directory's bookkeeping, and audio preparation as a step function that
    the caller drives (with the laws that a prepared file is the input itself
    or a converted copy in the cache, and that a second preparation of an
    unchanged file reuses that copy).
  - `backend.rs`, `types.rs`: backend and request configuration.
  - `backends/`: each backend's settings, the requests it sends and how it
    reads replies (`google_cloud/base64.rs` holds a verified base64 encoder, with its
    decoding round trip and its concatenation law).
  - `schema.rs`: provider option schemas for configuration UIs.
  - `error.rs`, `android.rs`: the error types and their messages.
  - `cancel.rs`, `client.rs`: the stop flag and the client's admission check.
  - `text.rs`: character-level helpers (case, trimming, decimal numbers).
- `tests/` — tests of the library.
- `app/` — the I/O side: file system, ffmpeg, HTTP, whisper, the async
  client, and the Android and Python bindings. It performs what the library decides.
