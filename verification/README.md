# local_file_intelligence

The verified core of a desktop file indexer that keeps a SQLite FTS5 index
of local folders and searches it.

- `src/` — the library, verified with Verus: extension classification
  (`config`), query sanitising and SQL planning (`search`), text extraction
  from content already read (`parser`, with `zip` and `quick_xml` for DOCX
  documents),
  fingerprints (`fingerprint`, with `sha2`), crawl records and exclusion
  rules (`crawler`, with `chrono` for timestamps), progress records
  (`models`), the per-file scan state machine and batching (`indexer`),
  watch decisions (`watcher`), command checks (`commands`) and database
  defaults (`db`).
- `app/` — the Tauri program around it: database access, file-system walking
  and watching, reading files, PDF extraction, and the commands.
- `tests/` — tests of the library on concrete values.
