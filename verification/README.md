# egocms_updater

Keeps a collection of Markdown files in step with the pages of an EgoCMS site. Each
Markdown file is mapped to a page id in a CSV table; the HTML of each file is put into the
page's `extra` section (at a JSON pointer named in the config) whenever it differs.

Layout:
- `src/` is the verified library: the command-line arguments (`config`), the requests sent to
  the EgoCMS REST API (`communicator`), the page logic (`page`), the sanity checks of the
  mapping table against the Markdown directory and the site (`table`), file extensions
  (`path`), and the trusted calls into `serde_json` (`json`) and `markdown` (`html`).
- `app/main.rs` is the program around it: argument and file reading, the config (TOML) and the
  table (CSV), the directory walk, and the HTTP session with `reqwest`.
- `tests/` runs the library on concrete values.

Usage: `egocms_updater [path-to-config.toml] [user-id] [user-token]`.
