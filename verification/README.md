# ollama_chat

A voice and text chat assistant for a local Ollama model (`phi4`): it listens,
transcribes with whisper.cpp, looks things up on the web where asked, streams
the model's reply and speaks it sentence by sentence.

The decisions and text handling are a Verus-verified library; the programs
around it do the input and output.

## Layout

- `src/` — the verified library
  - `text.rs` — string primitives (trimming, searching, byte offsets, joining)
  - `intent.rs` — what an utterance asks to look up on the web
  - `speech.rs` — noise filtering, transcriber output and progress
  - `web.rs` — routing a query, request addresses, weather reports, page text
  - `search.rs` — reading a DuckDuckGo Lite page and a Wikipedia search into
    the search report
  - `chat.rs` — the conversation history sent to the model
  - `stream.rs` — the streamed reply: lines, contents, spoken segments
  - `session.rs` — one turn after another: state and next action per event
  - `view.rs` — chat panel lines, scrolling, layout, level meter frames
  - `system.rs` — Windows build and installed-model checks
  - `laws.rs` — properties that hold across operations
- `tests/` — tests of the library on concrete values
- `app/` — the programs: the voice assistant (`chat2`), the typed chat
  (`chat`), a two-persona discussion (`lohengrin`), live transcription
  (`speech2text`) and a speech output check (`text2speech`)
