# renzora

The layout, scene and interface rules of the Renzora editor and engine, as a
library verified with Verus.

Everything in `src/` works on plain values. An entity is a `u64`, text is a
`String`, and a number that the renderer keeps in single precision is a
`scalar::Scalar`, which holds the bit pattern: the library compares and clamps
such numbers and leaves arithmetic to its host. A host gathers these values from
its world, calls the library for a decision, and carries the answer out.

| Module    | What it decides                                                      |
|-----------|----------------------------------------------------------------------|
| `dock`    | panels in trees of splits and tabs: edits, drags, floating windows    |
| `scene`   | what is saved, loaded, pruned and restored; cameras and sprites       |
| `ui`      | canvases and widgets: hierarchy, order, scale, geometry, plots        |
| `engine`  | start-up, global scenes, load progress, effect routing, viewports     |
| `lineage` | who is whose ancestor                                                 |
| `scalar`  | comparing and clamping single-precision numbers by bit pattern        |
| `text`, `unicode` | texts as sequences of characters                              |

Each executable type has a mathematical view, and each function says over those
views what it returns and what it changes. Public proof functions state what
holds across functions: that no gesture loses a panel, that a pruned scene stays
pruned, that a deleted subtree is restored whole, that a search for reference
cycles finds one exactly if there is one.

`unicode.rs` holds everything that is taken on trust: the case mappings of the
standard library's Unicode tables, and that `String::push` appends.

`app/` is the Bevy host.
