# FlexDisplay host (Windows)

The host side of FlexDisplay: it captures a Windows desktop with FFmpeg, encodes it to
H.264 and streams it over a WebSocket to the Android client, over USB (ADB reverse) or
Wi-Fi.

## Layout

- `src/` — the verified library (Verus). It holds the host's decisions and formats, each
  with a contract:
  - `profile` — the base stream profile (preset, manual, environment, client, mirrored
    display) and the per-encoder, per-transport caps;
  - `encoder` — encoder availability, the ordered encoder × capture × GPU trial list, the
    per-encoder FFmpeg options, and the probe cache / failed-key bookkeeping;
  - `ffmpeg` — the FFmpeg command line and rate control, the relay decisions of a trial,
    and log file names;
  - `settings` — stored settings, their canonical forms, migration and normalisation of a
    posted update, and the environment configuration;
  - `stream` — the planning of a streaming session and what each trial outcome means;
  - `adaptive`, `latency` — motion buckets, client statistics, the playback tuning and the
    latency probe answer;
  - `capture`, `host`, `gui`, `text` — capture backends, small host helpers, the control
    panel page, and the text operations the rest is built on.
  Laws that span several functions are public proof functions named `law_*`.
- `app/` — the executable: the HTTP/WebSocket server (warp, tokio), FFmpeg and ADB
  processes, the settings file, GPU and monitor discovery, and the floating-point motion
  score.
- `tests/` — tests of the library on concrete values.
