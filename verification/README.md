# volcano

A terminal audio visualiser for status bars such as Waybar: it records a
PulseAudio monitor source, runs the CAVA spectrum analyser, and prints one
line per frame, optionally with the current MPRIS track.

The crate is split in two:

- `src/` is the library, verified with Verus. It holds the channel
  strategies (band layout and names), the formatters (ASCII levels, the
  Braille dot meter with its playback mark, templates, Waybar JSON lines),
  the track information and the player server's cache, the choice of the
  monitor source, the decoding of record-stream packets, and the errors.
- `app/` is the program around it: the command line, the PulseAudio socket,
  the MPRIS D-Bus calls, the threads and the ring buffer between them, the
  CAVA bindings, and the floating-point conversion of amplitudes to levels.

`tests/` runs the library on concrete values.
