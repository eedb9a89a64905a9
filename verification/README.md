# mofish

A terminal companion for reading books and watching a stock list during the
working day.

- `src/` is the verified library:
  - `stock` validates stock codes and names new stocks;
  - `book` derives titles and formats from file paths and dispatches the
    `book` commands;
  - `text` decodes book files (UTF-8, GBK, Windows-1252) and splits them into
    lines;
  - `reader` is the paged reader: start page, paging and resizing, the saved
    position, and the decoding of key presses and typed commands;
  - `display` builds progress bars and shortens titles for list columns;
  - `tui` holds the terminal UI's state: tabs, selections and key handling;
  - `config` holds the reader configuration and its errors.
- `app/` is the program around it: the SQLite database, the configuration
  file, the command line, raw terminal input and the ratatui screens.
- `tests/` exercises the library.
