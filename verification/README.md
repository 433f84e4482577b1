# youTUIbe

A terminal front end for yt-dlp: search, listen and download from one
keyboard and mouse interface, with a persistent download queue.

## Layout

- `src/` is the library, written in Verus and verified. It holds the logic:
  download options and presets, the exact yt-dlp and mpv argument vectors,
  command previews with secrets masked, the job queue and what each worker
  event does to it, worker output parsing, display detection parsing, the
  quality sliders of search results, subtitle preference, the builder and
  settings rows, the text editor of the dialogs, and the screen's small
  calculations. Each public function states its result in `ensures`; the
  `lemma_*` proof functions state properties that span several calls.
- `app/` is the program around it: argument handling, the terminal, the
  ratatui screens, the processes (yt-dlp, mpv, viu, ffmpegthumbnailer),
  network thumbnail fetching and the JSON state file.
- `tests/` runs the library on concrete values.

Calls into outside crates (`shell-words`, `url`, `md5`, `uuid`, `chrono`,
`directories`) and a few std functions stand behind small trusted wrappers
whose doc comments say what their contracts claim.
