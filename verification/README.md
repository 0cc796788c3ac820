# sdkcheck

sdkcheck audits whether an agent can follow a product's docs, install the
product and complete the intended flow, and writes an evidence report:
failing steps, command logs, missing env names, generated files, a failure
classification and a reproduction command. It also runs one built-in
scenario recipe, Co-op Translator.

## Layout

- `src/` is the verified library: what a run executes, how its outcomes
  are judged and what is reported, each with its contract proved by Verus:
  - `text`, `paths`, `win_path`, `naming`, `env_map`: the text, path and
    name model the rest is stated in (UTF-8 lengths, trimming, ordering, path
    components on Unix-like hosts and on Windows with its prefixes and both
    separators, Docker-safe names, a sorted environment map).
  - `secrets`: forwarded secrets, the names that were missing, and masking.
  - `runner`: how a command is started locally or in Docker, and the
    evidence it leaves (masked, truncated, with timeout notes).
  - `report`, `report_lines`: the Markdown report, and the laws of its
    line structure (heading order, list sections, one heading per command).
  - `fake_openai`: the deterministic OpenAI-compatible endpoint used for
    dogfood runs (HTTP request parsing, sidecar commands and readiness
    probing, canned answers).
  - `audits::docs`: the docs audit (doc selection and bundling, the agent
    prompt, the step-by-step agent session, the report's verdict).
  - `recipes::co_op_translator`: the recipe's command plan and verdict.
  - `cli`: what a `run` command asks for and what the program prints.
- `app/` is the program around the library: argument parsing, files,
  processes, HTTP, the clock and the JSON report. It performs the work the
  library's decisions ask for and hands the outcomes back.
- `tests/` exercises the library on concrete inputs.
