# build_keyboard_sounds

Generates typing-sound packs (RIFF/WAVE, PCM 16-bit, mono) for an input
method: `0.wav` .. `9.wav` for ordinary keys, plus `enter.wav`, `delete.wav`,
`backspace.wav` and `space.wav`, in six packs (soft, classic, crisp, blue,
balanced, retro), optionally traced from the user's own recordings.

Layout:

- `src/` is the verified library (Verus): the WAV writer and reader with a
  proved write-then-read law, the pack shapes (file names, voices, lengths),
  the command-line grammar, the noise generator and the file-name hash.
- `app/` is the program around it: file I/O, the floating-point synthesis
  and tracing, and the volume setting.
- `tests/` exercise the library.
