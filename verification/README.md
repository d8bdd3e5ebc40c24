# jbot

The verified core of a media bot and of its command-line video downloader.

`src/` holds the logic, each function with a contract proved by Verus:

- `abogus`, `digest`, `urlencode`, `bili`: request signing (the `a_bogus`
  parameter, the web signature, WBI), query and cookie building, and the
  reading of API replies.
- `bvid`, `streams`, `bili_post`, `cli`, `console`, `download`, `ffmpeg`: the
  downloader — ids, stream choice, captions, the command line, resumable
  downloads and FFmpeg progress.
- `douyin`, `twitter`, `pattern`: finding posts in messages and planning what
  to fetch and send for them.
- `buttons`, `verify`, `merge`, `store`: callback-button data, join
  verification, album merging and what the bot stores.
- `text`, `parse`, `clock`: string, number and time helpers.

`tests/` runs the library on concrete values. `app/` is the downloader
program around the library: argument handling, HTTP, files and the FFmpeg
process.
