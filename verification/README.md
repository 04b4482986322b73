# meetily_models

The model-management and meeting-detection core of the Meetily desktop
application, verified with Verus.

- `src/` is the library: the transcription model catalogs and the
  custom-model registry,
  model-format detection, HuggingFace inspection and download bookkeeping,
  MLX conversion decisions, the NeMo runtime's checks, downloads and WAV
  header, the meeting-app and microphone detectors' state machines, the
  Windows ducking flag, and the sanitising and migration of stored BlockNote
  summaries. Decimal text, string and JSON helpers support them. Verus
  proves the contract of every function there except the few
  `external_body` wrappers around `std` and `uuid` calls, whose contracts
  are trusted and claim only what those calls document.
- `tests/` exercises the library on concrete values.
- `app/` is ordinary Rust around the library: HTTP requests, files, the
  Python sidecar process, process listing, floating-point audio arithmetic
  and the serde forms of the library's values.

## What `app/` leaves out

`app/` holds only what can be built here from the crates in `Cargo.toml`.
The desktop shell's own integrations are not part of it:

- the Tauri commands, managed state and event emitters (the `tauri` crate);
- the audio stream that feeds the microphone monitor (`cpal`): the library
  chooses the device by name (`choose_input_device`) and decides each tick
  (`MeetingDetector::tick`), but opening the stream is left to the host;
- the macOS CoreAudio property listener (`cidre`) that delivers device
  signals to `DetectorState::on_device_signal`;
- the Windows COM session calls (`windows`) that `DuckingGuard::disable`
  and `DuckingGuard::restore` take as closures; `app/ducking.rs` keeps the
  process-wide guard and accepts those calls from the host;
- the SQLite access (`sqlx`) around the summary migration, which
  `app/summary.rs` takes as rows already read.

These crates are platform-specific or need system libraries and a GUI
runtime, so they are not dependencies of this crate.
