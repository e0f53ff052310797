# Ninja

A self-improving coding-challenge harness: it solves SWE-bench style
challenges with a language model in container sandboxes, mines new
challenges with SWE-Forge, tracks how well it does and reports progress.

`src/` is the library, proved with Verus: the challenge records and their
validation, the requests sent to the container engine and how their results
are read, the agent loop and its tools, the single-shot solver, the reading
of mined workspaces, the performance analysis, and the decisions of the
improvement loop. Scores that are fractions are kept exact there (tenths,
ten-thousandths, or a numerator and a denominator).

`app/` is the program around it: HTTP, the container engine, files,
processes, writing JSON documents and reading challenges and settings from
them, and the float-valued reports. The library itself reads the fields of
a mined `workspace.yaml` and the members of a tool call's JSON arguments,
through `serde_yaml` and `serde_json`, and reads the clock.
It is a single binary; with no argument it runs the demonstration, and its
commands (`solve`, `continuous-loop`, `demo-swe-forge`,
`test-challenge-loading`, `test-challenge-solver`, `test-single-challenge`,
`test-challenge-conversion`, `simple-test`) run the other entry points.

The model asked for comes from `OPENROUTER_MODEL`.
