# flasher

A terminal tool that lists compressed disk images (`*.zst`) found in given
directories and on device mounts under `/run/`, lets the user pick one, and
writes it to the disk along its block map (`.bmap`), showing progress and the
outcome, after which enter reboots.

- `src/` is the library, verified with Verus: key handling and the image list
  (`images`), mount classification and the memory of announced mounts
  (`mounts`), flashing progress and the block map (`flash`), the outcome page
  (`final_page`), the page sequence and event handling (`ui`), character-level
  string predicates (`text`), Unix path components and the block map path
  beside an image (`paths`), a conservative
  XML tokenizer (`xml`) and the check that a block map text is safe to hand to
  the parser (`blockmap`), and properties of the whole (`laws`).
- `app/` is the program around it: terminal, event loop, drawing, D-Bus,
  directory scans and the copy itself.
- `tests/` exercises the library on concrete values.
