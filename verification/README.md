# toolbox_context_menu

Adds "Open with JetBrains" entries for the tools installed by JetBrains
Toolbox to the Windows Explorer context menus of folders and folder
backgrounds.

- `src/` is the verified library (Verus). It decides what a run does:
  the command-line plan (`arguments`), the registry operations that build and
  remove the menus and the order in which they are carried out (`registry`),
  a model of what those operations do to the registry, with key and value
  names compared without regard to case and the keys above a created key made
  as well (`registry_state`), the step-by-step scan of a Toolbox installation,
  its error messages and the uninstall plan (`scan`), and the text shown for
  GitHub releases (`releases`). Each public function
  states its result exactly; the proof functions state the properties that
  hold across functions (removal covers everything a scan writes, every tool
  gets a command, removal precedes writes, a completed scan is idempotent, and
  so on).
- `app/` is the executable around it: command-line parsing with clap, logging,
  reading `state.json` with serde, and the registry calls with winreg. It also
  holds the release check with octocrate, which no command runs yet.
- `tests/` runs the library on concrete values.
