# mark

A command-line tool that renders Markdown files to self-contained HTML pages
and opens them in the default browser. Each invocation writes its pages into
a run directory under `~/.mark/rendered/`; linked local Markdown files can be
rendered too, with their links rewritten, a breadcrumb on every page and a
sidebar tree of the whole set. Output older than 30 days is cleaned up.

## Layout

- `src/` is the library, verified with Verus. Every function carries a
  contract over mathematical models (`Seq`, `Map`-like association lists,
  spec functions), and the properties that span functions are stated as
  proof functions:
  - `text`, `assoc`: character-sequence searching, trimming, line splitting;
    association lists.
  - `html`, `copy_clean`, `code_block`: escaping and decoding entities,
    stripping full-line comments, the copy toolbars around code blocks.
  - `markdown`, `links`, `render`, `page`, `page_text`, `sidebar`: the
    Markdown conversion (by `pulldown-cmark`), link classification and
    rewriting, the page shell, and the sidebar tree.
  - `config`, `cache`, `crawl`, `storage`, `cleanup`, `cleanup_home`,
    `completions`, `error`, `paths`: settings, the render cache, discovery of
    linked files, naming of output, the cleanup rules, the safety checks
    before deleting `~/.mark`, the bash completion patch, errors, and the
    path operations of `std::path` the library relies on.
- `app/` is the program around the library: argument parsing (`clap`),
  reading and writing files, the TOML files (`serde`, `toml`), the browser
  (`open`), shell completion generation (`clap_complete`) and PDF export.
- `tests/` exercises the library on concrete inputs.
