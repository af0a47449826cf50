# zeroclaw_jarvis

The logic of a local voice assistant ("Jarvis"), written in Verus with its
behaviour stated in contracts and proved.

- `src/` — the verified library:
  - `text`, `numbers`: character-level string operations (`trim`,
    `split_whitespace`, `lines`, `replace`, `contains`) and decimal parsing,
    each stated over `Seq<char>`.
  - `voice_wake`, `wake_machine`: the clap gate, capture timing, wake-word
    matching, the dispatched message, WAV headers, and the listen loop's
    decisions as a state machine.
  - `segments`, `tts`, `audio_url`: speech segmentation, cache file names,
    the local TTS server's replies, and which audio URLs the desktop plays.
  - `launchctl`, `launch_plan`, `activation`, `tuning`: reading `launchctl`
    and `osascript` output, starting and stopping LaunchAgents, the desktop's
    handling of voice-activation events, and the detector tuning checks.
- `tests/` — tests of the library.
- `app/` — the processes, audio input, HTTP and window glue around it.
