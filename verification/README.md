# pockethle

Verified pieces of a high-level emulator for Pocket PC / Windows Mobile
games: the guest-visible rules of the system's built-in window controls
and message boxes, the Winsock and Hekkus Sound System stubs, dialog
templates, ordinal tables, OpenGL ES texture formats and matrix stacks,
Protracker module parsing and song sequencing, and the save-file format.

- `src/` is the library, written in Verus. Every public function states
  its result in its contract; the `lemma_*` proof functions state the
  properties that hold across calls (a save reads back what was written,
  a pop undoes a push, every song ends, a tap off every control passes
  through, ...).
- `tests/` runs the library on concrete values.
- `app/` is the host side: file I/O, the JSON form of the ordinal tables,
  and the floating-point work (fixed-point conversion, matrix maths,
  texture coordinates, the module mixer) around the verified core.
