# whispering

The verified core of a push-to-talk dictation engine, written in Verus.

- `src/text.rs` — whitespace, trimming, word splitting and joining, with lemmas
  about words of concatenations and joins.
- `src/transcript.rs` — merging newly stable text into a transcript without
  repeating overlapping words, and splitting a transcription into its stable
  and partial parts.
- `src/buffer.rs` — the rolling window of captured samples.
- `src/pipeline.rs` — control flags, transcription jobs, applying results,
  and the pipeline worker's decisions as a state machine. Each handler hands
  back the job it wants offered to the transcription thread; the caller
  offers it and tells the worker, through `job_offered`, whether the channel
  took it.
- `src/state.rs` — the dictation session: commands, their refusals, hotkeys.
- `src/input.rs` — how committed text is inserted, AppleScript escaping.
- `src/whisper.rs`, `src/vad.rs`, `src/audio.rs` — language settings,
  segment post-processing, speech decisions and frame assembly.
- `app/` — the program around the library: microphone capture, whisper.cpp,
  keyboard and clipboard, global hotkeys, threads, and a line-oriented front end
  that reads commands on standard input and writes status and events as JSON
  lines (with `serde_json`), in place of a desktop webview.
