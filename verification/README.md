# Translator Overlay

A desktop application that reads text off a window, translates it and shows the translation in
place. The rules of the application are a verified library; what touches the machine is a thin
program around it.

## The library (`src/`)

Every function states in its contract what it returns or changes, and Verus proves it, except for
what the library has from elsewhere (see [What is believed](#what-is-believed)).

| Modules | What they hold |
| --- | --- |
| `text`, `scalar`, `types`, `clock` | characters and trimming, comparison of floating-point values by their bits, boxes and blocks, elapsed time |
| `config`, `lenient`, `paths`, `cli`, `api_profiles`, `region_presets`, `region_profiles` | settings, the lenient reading of `config.toml`, stored profiles and presets, search for command-line tools |
| `frame`, `client_area`, `resize_watch`, `session` | captured frames and crops, the client area of a window, restarts after a resize |
| `models`, `download`, `engine` | model files, download progress, from detector regions to OCR blocks |
| `normalize`, `fingerprint`, `stability`, `filter`, `sorting`, `merge`, `paragraphs` | text normal form, page identity, the stability gate, persistence of blocks, merging of lines |
| `remap`, `pipeline`, `polling`, `state`, `wake` | captions that follow their text, the translation pipeline as a state machine, shared state |
| `ui`, `preview`, `windowing` | view models of the control window |

The pipeline decides and the host acts: a command or an event goes in, a step and a list of actions
come out. Time is a number of nanoseconds that the host passes in. Numbers that come out of
floating-point arithmetic are held by their bits; the library compares and clamps them, and the host
computes them.

Properties that span several operations are public proof functions whose names begin with `law_`.

### What is believed

Twelve small wrappers call code outside the library. Their contracts, which their comments explain, are
not proved:

| Wrapper | Calls |
| --- | --- |
| `clock::instant_now`, `clock::nanos_since` | `std::time::Instant`; nothing is claimed of the time |
| `windowing::lowercase` | `str::to_lowercase` |
| `paths::join_path`, `paths::is_absolute` | `std::path::Path`; what a path means is left to the host |
| `frame::bytes_slice`, `bytes_from`, `bytes_clone`, `bytes_equal` | `bytes::Bytes` |
| `lenient::parse_document`, `lenient::open_value` | the `toml` parser and its values |
| `engine::predict` | the recognition models of `oar-ocr`; nothing is claimed of which text they read |

So is the contract of `String::push` in `text`, and the types `Instant`, `Bytes`, `toml::Value` and
`OAROCR` are declared as opaque. `Clock::start` and `Clock::now` have no contract: every rule that
depends on time has a function that takes the time as an argument.

## The program (`app/`)

`app/` loads and saves files, downloads models, runs the OCR engine and drives the pipeline. The
Windows desktop (capture, shell, control window) is under `app/desktop`. Overlay windows and the
translation service are traits in `app/services.rs`.

## Tests (`tests/`)

Plain Rust tests of the library on concrete values.

## Dependencies

`ort` is not used directly. It is named for its `load-dynamic` feature only, which lets `oar-ocr` find
the ONNX Runtime when the program runs, so that building and testing need no copy of it.
