# nex_editor

A headless plain-text editor core, verified with Verus.

`src/` is the verified library:

- `model` – document nodes (character offsets throughout), resolved
  positions, schemas and content matching;
- `transform` – steps (replace, split, join, marks), step maps and mappings;
- `state` – selections, editor states and transactions;
- `commands` – the editing commands (typing, deleting, caret moves, marks);
- `runtime` – the editing core that turns editing events into committed
  transactions, with a revision counter and input-method composition;
- `document` – the id-keyed node tree, its schema, anchors and undo stack;
- `editor`, `nodes`, `layout`, `color` – the node-key editor model.

Each public function states its result over a mathematical model of the
types; the `law_*` proof functions state properties that span several
functions (what typing or deleting leaves, what the revision counts, what an
inverse undoes).

`app/` is the unverified shell: text layout and hit testing in floating
point, JSON forms of the library's types, the browser binding, the command
line and raster drawing.
