# stt-linux

Local speech-to-text dictation for Wayland. Press a key, speak, and the text
appears in whatever you were typing into. Everything runs on your machine.

`src/` is the verified library: what the dictation daemon, its command-line
client and its diagnostics decide, stated in contracts and proved by Verus.
`app/` is the ordinary Rust around it: processes, sockets, files, the microphone,
the recognizer, the overlay's surface, and everything in floating point.

## The library

| Module | What it decides |
|---|---|
| `session` | the dictation state machine, and how a transcript is delivered |
| `daemon` | how requests are answered, and what the background threads do |
| `inject` | which backend puts text into the focused window, and with which steps |
| `ipc`, `client` | the messages on the control socket, and what a client makes of them |
| `config`, `paths` | the configuration, its validation, and where things live |
| `audio`, `capture`, `resample`, `wav` | devices, the ring between callback and worker, chunks of samples, WAV files |
| `engine`, `model` | which recognizer is loaded, and how its model is downloaded |
| `segments` | where a long recording is split for the recognizer |
| `postproc` | the substitutions and cosmetic changes that a transcript gets |
| `overlay`, `paint` | what the recording overlay shows, and its pixels |
| `activate`, `wayland`, `probe` | what the session offers |
| `doctor`, `cli` | the report and the command line |
| `text`, `order` | strings and sorting, for the others |

What holds of the library as a whole is stated in public proof functions whose
names begin with `law_`. Among them: where the compositor tells which window has
the focus, text is never typed into another one than the one that was dictated
into (`session::law_delivery_is_guarded`), no transcript is lost
(`session::law_no_transcript_is_lost`), and a dictation that was cancelled is
never delivered (`session::law_cancelled_is_never_delivered`).

## What is trusted

A few functions of other crates are called behind wrappers whose contracts are
believed: `regex` for patterns in the configuration, `serde_json` for quoting
strings, `hound` for WAV files, `ringbuf` for the ring between the audio callback
and its worker, `directories` for the base directories, and a few
functions on strings and characters of the standard library. Each wrapper says what it claims.
