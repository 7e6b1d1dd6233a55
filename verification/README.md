# locafetch

The core of LocaFetch, a desktop tool that indexes local files into SQLite
and searches them as you type, written in Verus with its behaviour stated in
contracts and proved.

- `src/` is the verified library:
  - `text`: character-level string operations (trimming, splitting,
    substring tests) and selection by flags;
  - `db`: file records, the SQL text of the two searches, the FTS5 match
    expression, and the steps of a search (full-text first, substring search
    as fallback);
  - `indexer`: exclusion rules, records of visited entries, batching of
    records for the database, and the progress status;
  - `watcher`: pending writes built from file system changes and when they
    are flushed;
  - `settings`: defaults, out-of-the-box exclusions and drive roots;
  - `hotkey`: reading hotkey strings such as `ctrl+space`;
  - `commands`: the decisions behind the application's commands and start-up.
- `app/` is the Tauri application around it: the database connection, the
  directory walk, the file watcher thread, settings files, the window, tray
  and global shortcut.
- `tests/` runs the library on concrete values.
