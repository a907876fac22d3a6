# gdrive_api

A small Google Drive downloader for PocketBook e-readers, with its logic
verified by Verus.

- `src/` is the verified library: JSON parsing (through tinyjson) and the
  decoding of the configuration files and of the API's answers; the OAuth
  flow's decisions (consent URL, the code in the browser's redirect, the
  answer to the browser, the token requests); the Drive listing, page after
  page, and the download requests; the e-reader's download as a state
  machine (which file next, progress, messages, the stop at the first
  error); decimal numbers; and the e-reader screen's layout and events.
- `app/` is the program around it: files, HTTP (ureq), the local TCP
  listener and the browser, and the InkView system library of the e-reader.
  `app/main.rs` runs the authorization wizard; with `--sync` it runs the
  e-reader downloader, doing what the library's state machine asks.
- `tests/` exercises the library on concrete values.
