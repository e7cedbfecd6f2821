# SiloCut

A small non-linear video editor and screen recorder. The editing core is written in Verus:
what each function does is stated in its contract and proved.

- `src/` is the verified library: the timeline and its edits (`editor`, `drag`, `history`,
  `invariants`), the layout of the timeline (`layout`), the preview (`preview`, `seek`,
  `audio`), export and recording (`export`, `recorder`), H.264 stream layout (`codec`,
  `h264`), pixels (`pixels`, `resample`, `thumbnail`), media files (`media`) and project
  files (`project`).
- `tests/` runs the library on concrete values.
- `app/` is the program around it: the window, files, threads, sound output and screen
  capture.

Times are whole nanoseconds, on-screen coordinates thousandths of a point, volume and quality
thousandths.

Calls into other crates (OpenH264, image, rayon) and two of std stand behind small functions
whose contracts are believed; a comment above each says what it claims.
