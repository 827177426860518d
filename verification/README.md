# heco

`heco` is a command-line tool for HarmonyOS projects built with DevEco
Studio: it builds, cleans and lints projects through `hvigor`, `ohpm` and
`codelinter`, manages the DevEco Studio installations it uses, lists devices
through `hdc`, and starts and stops emulators.

The decisions of the tool live in a library whose functions are verified
with Verus against their `requires`/`ensures` contracts; the executable
around it reads files, runs the tools and prints.

## Layout

- `src/` — the verified library.
  - `text`, `numeric`, `paths`: strings, decimal numbers and file paths
    (for macOS and Windows layouts) with their specifications.
  - `output_parser`, `hvigor`, `ohpm`, `lint`: how each line of tool output
    is classified and what is printed for it; the command lines of `hvigor`
    and `codelinter`.
  - `project`, `build_args`: the project model and the plan of a build.
  - `config`, `env`: the configured installations, where each tool lies in
    an installation, and `heco env add/remove/list`.
  - `hdc`, `device`, `emulator`: devices and emulators.
  - `commands`, `new_project`, `completion`, `update`, `output`: the other
    commands and their output.
  - `style`: terminal colours and escape removal, by `owo-colors` and
    `anstream`.
- `tests/` — tests of the library on concrete values.
- `app/` — the `heco` executable: argument parsing with `clap`, the
  configuration file, processes, prompts and the status bar.
