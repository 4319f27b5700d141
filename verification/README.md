# ltc_bridge

A bridge from linear timecode (LTC) on an audio input to a Behringer Wing
console: it decodes timecode, shows it, and runs a fixed cue show (a fader
move and a series of mute toggles) over OSC.

- `src/` is the verified library (Verus):
  - `timecode` — `HH:MM:SS:FF` text, written and read back;
  - `cues` — cue positions, the show, and which cue a tick fires;
  - `gate` — warm-up and rogue-frame filtering of incoming timecode;
  - `wing` — console settings, the discovery/keep-alive state machine,
    reply handling, fader rate limiting and OSC packets (through `rosc`);
  - `network` — interface selection and ordering, probe replies;
  - `ui` — the boxed boot screen's lines;
  - `order` and `text` — stable keyed sorting and character helpers.
- `app/` is the program around it: audio capture (`cpal`), the libltc
  decoder (`x42ltc-sys`), interface listing (`if-addrs`), UDP sockets,
  threads and the terminal.
- `tests/` exercises the library on concrete values.
