# tctl

A test orchestrator for mobile apps: it validates preflight specs, generates
test case YAML from their journeys, runs suites on devices, and checks a
device setup (`tctl validate | generate | run | doctor`).

The library (`src/`) is written in Verus and verified; `app/` holds the
command-line program around it (file and process access, YAML parsing).

- `types` — the spec the generator reads and the test cases it writes.
- `resolve` — what text a state assertion looks for (baseline match, spec
  text, quoted text of the rendering, state name).
- `journey` — expanding journeys into test cases.
- `emit` — YAML text and file names of test cases.
- `baseline` — which baseline files describe a requirement, and which of
  their contents are worth matching.
- `validate`, `yaml` — the spec validator and the YAML values it reads.
- `cli`, `config`, `run`, `doctor`, `files` — argument parsing, the project
  file, run commands, health checks, and directory listings.
- `text` — string operations stated over `Seq<char>`.
- `laws` — properties of the generator that hold for every input.
