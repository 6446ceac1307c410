# whispercli

A local speech transcription program for the terminal, with its logic verified
by [Verus](https://github.com/verus-lang/verus).

- `src/` is the verified library. It decides; it does not touch files, the
  network, the terminal or the microphone.
  - `app`: the model catalogue, the application's directories, the home.
  - `settings`: transcript formats and the user's configuration.
  - `audio`: input devices, the choice of a microphone, drop counters.
  - `transcript`: the lines of a transcript and their layout in Markdown, plain
    text, subtitles, JSON and JSON Lines.
  - `output`: where a transcript is written, and in which format.
  - `transcriber`: the session that listens, recognizes and writes.
  - `windows`: audio, cut into overlapping pieces.
  - `install`: the installation of a model, as a state machine.
  - `checksum`: SHA-1 digests, computed by the `sha1` crate.
  - `cli`: commands and what they report.
  - `tui`: the screen, its keys and clicks, and its layout, which the `ratatui`
    crate computes.
  - `path`, `text`, `json`, `error`: what the others share.
- `tests/` runs the library on concrete values.
- `app/` is the program around it: command line, terminal, files, downloads,
  microphone (`cpal`) and recognition (`whisper-rs`).

Functions whose names begin with `law_` state what holds of the library as a
whole, for example that a model file is put in place only if its digest is the
one in the catalogue, and that a transcript's file never lags behind the
transcript.

What is believed without proof stands in the items marked `external_body`,
`external_type_specification` or `assume_specification`, in `path`, `text`,
`checksum` and `tui`. Each says which outside function it speaks of.
