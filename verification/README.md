# iron_sendme

The transfer logic of a Tauri client that sends and receives files and
directories over iroh-blobs, written in Verus and verified.

- `src/` — the verified library:
  - `paths` — the name of a path (`get_name`), joining a name onto a
    directory, the collection names of walked files;
  - `collection` — building a collection with no two entries under one name,
    and planning where a received collection is written;
  - `sendme`, `sendme_multi` — what a send and a receive decide and report;
  - `progress` — the progress reports of each stage;
  - `sizes`, `text`, `error`, `downloads` — byte totals, decimal text, error
    messages, default download directories;
  - `blobs` — the trusted contact surface with `iroh` and `iroh-blobs`.
- `tests/` — tests of the library against concrete values, including the
  standard library's own path functions and real tickets.
- `app/` — the Tauri commands, file system and network work around the
  library.
