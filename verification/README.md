# sbrs_core

The decision-making core of `sbrs` (Shell Buddy), a keyboard-driven terminal
file manager, written in Verus: the functions in `src/` carry contracts over
mathematical models (`Seq`, `Map`, `Set`, `int`) and are proved against them.
A few small functions marked `#[verifier::external_body]` call outside code
(`regex`, `base64`, `ratatui`'s layout, `std::path`, `str::to_lowercase`,
collecting chars into a `String`); their contracts are trusted, and each says
in its doc comment what it claims of the call.

- `src/` — the verified library:
  - text, numbers and quoting: `text`, `fmt`, `quote`
  - the listing: `entries` (sort orders), `selection` (selection and marks
    across re-sorts, action targets), `columns` (name styles, columns),
    `nav` (selection moves, scrolling), `overlay` (layout and mouse hit tests),
    `dialogs` (confirmation keys), `input` (the line editor), `browse` (what
    keys and mouse events do in the listing, the panels, prompts and search)
  - search: `search` (fuzzy and literal matching), `ranking` (regex and fuzzy
    file-name results), `content` (the content-search state machine), `walk`
    (collecting candidates folder by folder)
  - files and tools: `filetypes`, `archive`, `meta` (permissions, creation),
    `preview`, `images` (terminal image escapes), `sqlite`, `shell` (split
    shells, mounts, clipboard), `transfer`, `git` (commit/tag steps and the
    repository-info probe), `paths` (typed paths, path filters), `remote`
    (ssh config, rclone, local mounts), `notes` (per-directory notes file),
    `integration` (the optional-tool catalog, probes, settings, installs)
  - `sort`: a verified stable insertion sort used by the orderings above
  - `selection`, `walk`, `columns` and `git`'s step runner hold the
    decisions of the listing, the candidate walk and the commit/push run
- `app/main.rs` — the program around it: arguments, file system, processes
  and the terminal, handing plain values to the library and acting on what
  it returns.
- `tests/` — tests of the library on concrete values, with the outside
  crates (`regex`, `base64`, `ratatui`) linked.
