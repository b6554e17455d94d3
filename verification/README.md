# mdreader

The verified core of a terminal markdown reader, written in Verus.

- `src/` is the library. Every function carries a contract that Verus proves:
  - `text`: display width (through `unicode-width`), truncation with an
    ellipsis, padding, box drawing and decimal numbers;
  - `mermaid`: text renderers for architecture, block, sankey and quadrant
    diagrams, and the Sugiyama layout through `ascii-dag`;
  - `checklinks`: markdown link extraction (through `pulldown-cmark`),
    classification, path normalisation and ordering, validation and the
    scan report;
  - `config`, `theme`: settings values, theme design tokens and spacing units;
  - `ui`: the outline picker, the line-number gutter and popup geometry;
  - `version_check`: semantic-version comparison (through `semver`) and the
    decisions around the cached update check.
- `tests/` exercises the library on concrete values.
- `app/` is the program around it: the command line, files, the network, the
  clock, threads, terminal drawing and colour arithmetic in floating point.
