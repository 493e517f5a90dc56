# alacritty-theme-manager

`atm` is a terminal program for previewing and switching Alacritty themes
live: as the cursor moves through the theme list, the theme's file is
written into the `[general].import` array of `alacritty.toml`, and Alacritty
reloads it at once. `Enter` keeps the theme, `Esc`/`q` puts back the theme
the configuration had, and `u` pulls the themes repository where it is a git
checkout. Only the theme's import entry is touched: every other key, table
and comment of the configuration stays as it was, and a configuration file
that is not valid TOML is never written over.

The crate is verified with Verus.

- `src/` is the library, where every decision is made and proved:
  - `path` — Unix paths as strings (components, join, parent, prefixes,
    stems and extensions), with the meaning `std::path` gives them;
    `path_facts` holds what is proved about them;
  - `themes` — the path written for a theme, which import entries are theme
    entries, and the sorted theme list of a directory;
  - `locations` — where the configuration file and the themes directory are;
  - `toml_doc` — the `toml_edit` calls the library makes, with their
    contracts; `config` — reading and editing the theme entry;
  - `app` — the program's state, the keys, and the outcome of a `git pull`;
  - `ui` — the scroll position of the list and the footer: key hints, or
    the status line in its colour;
  - `preview` — the styled text of the preview panel, with a swatch of each
    of the sixteen palette colours;
  - `order`, `text` — the order of names and small string routines;
  - `laws` — properties across operations: moves undo each other, a full
    round of moves up or down comes back to the start, the
    applied theme is read back as the current one, applying twice leaves one
    theme entry, restoring undoes applying.
- `app/` is the program: reading files and the environment, the terminal,
  drawing with ratatui, running `git`.
- `tests/` checks the library on concrete values, and the path routines
  against `std::path`.
