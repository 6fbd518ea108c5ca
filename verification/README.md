# wikiquotes_structured

Turns a Wikiquote XML dump into structured quote data, with the rules that
read the wikitext proved by Verus.

A quote on Wikiquote is a `*` line, its source is the `**` line below it, and
the rest of the citation is in the section heading above it. The library
reads that structure in two layers:

- **Layer 1**, the document model (`model`, `parse`, `wikitext`, `syntax`):
  a faithful tree of one page, with sections, list items, dialogue turns and
  templates. The page is parsed with tree-sitter-wikitext; the tree is read
  as a flat list of nodes, and everything built from it is stated over that
  list.
- **Layer 2**, the quote record (`normalize`, `quote`, `citation`, `roles`,
  `classify`): a flat row per quote with its speaker, source, topic and
  status, and where each of them came from.

`dump` turns the events of an XML reader into pages, `report` counts what a
run produced, and `text` and `number` hold the string and number rules the
rest is stated with.

## Layout

- `src/` the verified library. Each public function states in its `ensures`
  what it returns, over spec functions of the same module. Functions named
  `law_*` are proof functions that state properties spanning several calls.
- `tests/` tests on concrete pages and headings.
- `app/` the command line: reading the dump, writing JSON Lines and Parquet,
  and turning counts into shares for the report.
