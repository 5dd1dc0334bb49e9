# tmj_app

The logic of a terminal visual-novel engine, written in Verus and proved
against its contracts.

- `src/` is the library. Each module states what its functions do over
  mathematical models (`Seq`, `Map`, spec functions) and proves it; public
  proof functions named `law_*` state properties that span several calls
  (the history keeps the newest records, preprocessing is idempotent, a
  slot's file name reads back as its number and name, reading a section
  leaves the next one at the head of the buffer and always comes to an
  end, a screen switch whose screens fail keeps the current screen and the
  jump path, and so on).
- `tests/` runs the library on concrete values.
- `app/` is a small command-line front end: it reads and writes the
  settings and layout files, numbers the section markers of scripts, lists
  the save slots found on disk and prints a section of the entry script.
