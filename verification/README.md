# rustube

A YouTube downloader whose logic is written in Verus and proved against its
contracts, with a thin command line around it.

- `src/` is the verified library: video ids and the urls built from them,
  the scanners that find the player's javascript, the player response and the
  embedded JSON objects in a watch page, the itag tables, formats and streams
  and how the best or worst of them is picked, the `mimeType` and duration
  texts, the addresses of info requests, signed streams and stream segments,
  playlist and channel pages, the output levels of the command line, and the
  decisions of a download (what a response's headers say, what to do when a
  request fails, when to report progress).
- `tests/` runs the library on concrete values.
- `app/` is the `rustube` program: argument parsing, HTTP requests, files,
  logging and serialisation. It hands the library plain values and acts on
  what the library decides.

Calls into outside crates (`regex`, `url`, `mime`) stand behind a few trusted
functions whose contracts say what the crates' sources show.

What the program does not do:

- It does not unscramble signatures. A stream whose address carries a
  scrambled signature needs the transformations written in the player's
  javascript, and reading them is not part of this project: such a stream is
  refused with an error, so `check` and downloads stop on it. Streams whose
  address is already signed are used as they are.
- It does not read a channel's description or its list of videos out of the
  channel page: it finds the page and hands back its initial data whole.
