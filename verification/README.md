# banditrs

A security linter for Python source code in the manner of Bandit. The
library holds its logic: finding the files to scan, the order in which a
syntax tree is walked and what each visit hands the tests, filtering what
the tests report through `# nosec` comments, severity and confidence
thresholds and a baseline report, and writing the results as text, CSV,
XML or JSON, with the exit codes `0`, `1` (issues found) and `2` (usage
error).

No Python parser is linked into the programs under `app/`: they find and
read the files, but report each one as not scanned, since no syntax tree
can be built for it.

The library under `src/` is written in Verus. Its functions carry
contracts that the verifier proves, with one exception: the small
wrappers marked `#[verifier::external_body]`, each of which makes one call
into the standard library or an outside crate (`indexmap`, `rustc-hash`,
`regex`). Their contracts restate what that code documents and are
trusted, not proved; each says so in its doc comment.

- `constants`, `log`, `text`, `source`: ranks, log records, string and
  number helpers, the lines of a source file.
- `ast`: node kinds, positions, expressions and their literal values,
  qualified names, the scope and imports of the walk, the visit of a node,
  line ranges, the merged view of f-strings, the syntax tree with CPython's
  class names, the order in which a node's children are visited, and the
  tree the walk takes, built from a syntax tree in that order.
- `engine`: issues, the context tests get, tests and their selection,
  `# nosec` handling, the tester, metrics, configuration, file discovery,
  baseline reports as JSON values, and the manager that ties a run together.
- `formatters`: the text, screen, CSV, XML and JSON reports (the HTML,
  SARIF, YAML and custom reports are not written).
- `cli`: the `[bandit]` section of an INI file, and the decisions of the
  `bandit`, `bandit-baseline` and
  `bandit-config-generator` commands.
- `pycompat`: what these need of Python's behaviour (path handling,
  `fnmatch`, the `unicode_escape` codec, CSV and XML escaping, floats,
  stable sorting and `json.dumps`).

`app/` holds the programs around the library: reading arguments, files and
configuration, running the scan, printing and writing reports.
`tests/` holds the tests of the library.
