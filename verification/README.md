# download

A front end for `yt-dlp`: a command line that edits a queue of video URLs and
download settings kept in `config.json` and runs the downloads, and a small
web interface (started under the name `serve`) over the same file.

- `src/` is the library, written in Verus: flag parsing and the edits each
  flag makes (`cmd_args`), the configuration (`config`), the `yt-dlp`
  argument list and release URLs (`download`), the HTML fragments (`html`),
  form decoding (`form`), the log scanner and progress tracker (`progress`),
  request decisions of the web interface (`server`), and text helpers
  (`text`).
- `app/` holds the program: file and network I/O, process spawning, the
  axum server, and the floating-point progress percentages.
- `tests/` runs the library on concrete inputs.

The web interface reads its static files from `web/` in the working
directory.
