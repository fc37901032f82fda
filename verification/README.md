# wandering_inn_scraper

A web-serial scraper that builds EPUBs, with a small web frontend, written
as a Verus library with a thin program around it.

- `src/` is the verified library: configuration and its presets, the
  scrapers' reading of tables of contents and chapter pages, the download
  run's decisions, the post-processors, EPUB layout, the database's
  decisions, statistics, and the web frontend's sessions, rate limiting,
  sanitising, downloads and configuration editing. Calls into outside
  crates (regex, soup, ammonia, argon2, rand, hex, color_name,
  percent_encoding, epub_builder) stand behind trusted items whose doc
  comments say what is assumed of them.
- `app/` is the program: command line, HTTP, SQLite, the HTTP server and its
  pages, JSON (de)serialisation, and cover images.
- `tests/` runs the library on concrete values.
