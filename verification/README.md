# SonicMux

SonicMux makes the audio of Matroska files playable on televisions without touching the video.
Streams that a device plays already are copied; audio that it does not play is encoded once more,
and the result is published only after it was compared with what was planned.

## Layout

- `src/` is the library, verified with Verus. It decides; it does no input or output.
  - `text`, `number`, `table`, `path`: texts, numbers, ordered tables and paths of bytes.
  - `model`, `stream`, `media`, `policy`, `target`: media files, devices and targets.
  - `plan`, `plan_laws`: what is copied and what is encoded, and what holds of every plan.
  - `validate`, `execution`, `execution_laws`: how an output is compared and published.
  - `ffmpeg`: arguments of the tools, their documents, their progress and their supervision.
  - `runtime`: settings, discovery of inputs and batches of files.
  - `cli`, `tui`, `gui` on top of `session` and `queue`: what the interfaces show and decide.
- `app/` is the program around the library: processes, files, the terminal and the command line.
  `app/shell.rs` is the native window. It is compiled with the `desktop` feature only and needs
  `tauri` and `tauri-plugin-dialog`, which in turn need the webview of the platform.
- `tests/` exercises the library from outside.

Paths are sequences of bytes with `/` between their components, as on Unix; two paths are equal where
their components are. The program in `app/` is written for such platforms.

## How decisions and effects meet

Where work alternates between decisions and effects, the library holds a state machine and the
program performs its actions: `execution::Transaction` publishes one output, `ffmpeg::process`
supervises one child process, `runtime::scheduler::Batch` works on many files,
`runtime::discovery::Discovery` collects inputs, `tui::model::Model` and `gui::service::Session`
are the two sessions. The proof functions named `law_…` state what holds of them whatever happens.

## What is trusted

Verus believes a few contracts without proof: `String::push`, lossy and strict UTF-8 decoding and
the debug quotation of the standard library, and the pattern sets of `globset`. Each such item says
in its comment what it claims.
