# twitch_discord_summarizer

A bot that watches one Twitch stream (chat and audio), keeps a bounded rolling
window of what was said, asks an LLM for incremental summaries, and posts them
to Discord. The decision logic is a Verus-verified library; the binary around
it does the I/O.

- `src/` — the verified library: context window and summary trigger,
  aggregator decisions, backoff and restart delays, daily spend ledger,
  token-bucket rate limiter, stream online/offline debouncing, Helix token
  reuse, chat message normalization, mention detection, reply sanitizing,
  Discord payloads and text chunking, HLS playlist parsing, WAV and Base64
  encoding, speech-to-text request building, configuration parsing.
- `tests/` — tests of the library.
- `app/` — the program: environment, logging, signals, supervision, HTTP,
  IRC, subprocesses (ffmpeg, streamlink), and the floating-point parts
  (voice-activity threshold, random rolls, dollar amounts).
