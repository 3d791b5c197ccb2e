# felix

The core of a lightweight file manager, written in Verus. The executable
functions in `src/` carry contracts that Verus proves, except for five small
trusted wrappers whose contracts are believed: `String::from_iter`,
`str::to_lowercase`, `dirs::home_dir`, `dirs::config_dir` and
`regex::escape`.

- `src/path.rs`: Unix paths as strings: file name, extension, parent, join.
- `src/fs/calendar.rs`: calendar dates (proleptic Gregorian, UTC).
- `src/fs/browser.rs`: directory entries, how sizes, times and icons are
  shown, and the stable sort of a listing (directories first).
- `src/fs/operations.rs`: where a copied or moved file lands.
- `src/config/`: the configuration's shape, its defaults, file locations and
  whether startup reads or writes the file.
- `src/ui/window.rs`: navigation history, sort requests, theme colors,
  settings form and sidebar, and what listing a directory, a back or forward
  press, changing the search text and saving the settings do to the window.
- `src/search/content.rs`: content-search patterns, which paths of the walk
  are searched, and the limit on results.
- `src/tools/`, `src/viewers.rs`, `src/archive/`: which tool, viewer or
  archive handling a file gets, and what launching a viewer reports.
- `app/`: the program: reading and writing files, YAML/TOML/JSON, the
  content-search walk, launching viewers and PDF pages.
