# cam2anki

Looks words up in the Cambridge English dictionary and adds them to Anki,
through the AnkiConnect add-on, as cloze flashcards; it can also import the
Study4 TOEIC vocabulary database into Anki decks.

## Layout

- `src/` is the verified library (Verus):
  - `text.rs`: character-level string work (trimming, white-space collapsing,
    substring search, decimal numerals) with its specifications;
  - `anki/`: the `addNote` requests built from an entry or a Study4 note,
    the whole-word cloze marking, base64 media encoding, model set-up steps
    and their `createModel` / `updateModel*` requests, and reading
    AnkiConnect replies;
  - `cam/`: dictionary entries, reading an entry from a page, page URLs and
    audio file names;
  - `crawler/`: crawl jobs and the pipeline tally, where every word counts
    for two units of progress;
  - `study4/`: deck naming and splitting, asset paths, notes built from
    database rows and the import tally;
  - `cli/`, `input.rs`: what the prompts' answers mean.
- `app/` is the program around it: prompts, HTTP calls, the SQLite queries,
  the file system, the concurrent workers and the progress bar.
- `tests/` runs the library on concrete inputs.

Calls into `scraper`, `urlencoding` and a few std functions (lower-casing,
character classes, path parts) are trusted wrappers; their contracts say
what the rest of the library relies on.
