# code_graph

The logic of a code search tool and of the snapshots of its index, verified with
Verus.

- `src/` is the library. `query`, `pool`, `confidence`, `rank`, `shortfall`,
  `snippet`, `answer` and `search` take a search from its arguments to its
  answer; `snapshot` and `inspection` make snapshots and read what they say about
  themselves; `text` and `json` are what both are built on.
- `app/` asks the index, reads and writes files, and computes scores.
- `tests/` runs the library.

The two loops of the program are state machines in the library. `search::Search`
says how many ids to fetch next, takes what came back, and ranks what is to be
shown; `inspection::Inspection` says what to look at next and takes what was seen.
Proof functions whose names start with `law_` state what holds of the library as
a whole.
