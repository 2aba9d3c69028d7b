# rustpress

A documentation site generator that reads VitePress-format content
(YAML front matter, `:::` containers, GitHub alerts, labeled code
fences, code groups, `<Badge>`, includes) and renders a static site.

## Layout

- `src/` — the verified library (Verus): configuration model and
  validation, content loading and URL mapping, natural page order,
  sidebar resolution and pager neighbours, the markdown preprocessing
  passes (includes, containers, fence info strings, badges), the
  code-block renderer (line notations, ANSI colours, tree-sitter
  highlighting through the bundled grammars, highlight segments, line
  classes), syntax-theme resolution, heading anchors and the table
  of contents, site-level rendering decisions (titles, locales,
  rewrites, dead links, sitemap, outline), the page markup (document
  shell, navbar and mobile menu, sidebar, local nav, doc, home and 404
  pages, search box), the dev server's request
  planning, and the parity gate: landmark extraction from built HTML
  (through scraper) and the fingerprint comparison. Every public function
  carries a `requires`/`ensures` contract; cross-function properties are
  stated as `law_*` proof functions.
- `app/` — the program around it: the command line, file and network
  I/O, TOML/YAML/JSON parsing into the library's types, the comrak
  markdown walk, and the HTTP server and file watcher.
- `tests/` — tests of the library's public functions.
