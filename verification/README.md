# Flowbit

Flowbit is a small desktop application that downloads videos and sound from
YouTube and Twitch with yt-dlp and ffmpeg.

`src/` is its decision logic, written in Verus: which addresses and times are
accepted, what yt-dlp and ffmpeg are asked to do and in which order, what their
output means, what is kept of what was learned, and what the user is told. Each
function states what it returns, and the contracts are proved.

- `text`, `numbers`, `classes`, `json`, `paths`, `platform`: plain values.
- `functions/valid`, `functions/section`: addresses and times.
- `functions/formats`: format selectors.
- `functions/output`, `functions/meta`, `functions/get_info`,
  `functions/playlist`, `functions/twitch`: what yt-dlp prints.
- `functions/ytdlp`, `functions/browsers`: how yt-dlp is run, and with which
  cookies.
- `functions/download`, `functions/playlist`, `functions/preview`: downloads,
  step by step.
- `functions/cancel`, `functions/cache`, `functions/dependencies`: cancelling,
  the cache, and the programs that are installed.

`app/` is ordinary Rust around it: the window, processes, files and the network.
It asks the library what to do next, does it, and hands back what came of it.

`tests/` runs the library on concrete values, with the real outside crates.
