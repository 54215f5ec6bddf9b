# ww_manager

The download manager for Wuthering Waves (CN, Global and Bilibili servers):
it downloads, checks, updates and pre-downloads the game client and switches
an installed client between servers.

- `src/` is the library, verified with Verus: the server tables, paths
  (following `std::path`'s rules for Unix or Windows, whichever the caller
  names) and URLs, the launcher information and resource indexes (as a JSON model),
  which files to download and how (chunk plans, resumption, retries,
  progress reports), update decisions, the server switch (which renames, and
  whose content each file then holds), the MD5 cache, the configuration
  directory, and the decisions of the launcher commands. MD5 digests come from the `md5` crate and
  URL resolution from the `url` crate.
- `app/` is the Tauri desktop program around it: HTTP transfers, the file
  system, JSON files, the environment variables and the commands the user
  interface calls.
- `tests/` exercises the library on concrete inputs.
