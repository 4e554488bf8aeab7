# hippocampus

A small ReAct agent harness: the model alternates `Thought`, `Action` /
`Action Input` and `Observation` until it gives a `Final Answer`.

- `src/` is the verified library (Verus): the text protocol and the run state
  (`react`), tool profiles, allowlists and capabilities (`policy`), prompt
  rendering (`prompting`), tool dispatch and the computations of the built-in
  tools (`tools`), the LSP session steps (`tools::lsp_session`), the command
  line (`cli`) and the scripted model and endpoint settings (`llm`).
- `app/` is the program around it: reading the environment and the terminal,
  HTTP calls to the model, the file system walks of the tools and the
  language-server process.
- `tests/` runs the library on concrete inputs.
