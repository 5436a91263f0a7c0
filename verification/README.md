# glim

The core of a terminal dashboard for GitLab CI pipelines, written in Verus.

- `src/` is the verified library: the project store (loading projects, pipelines and
  jobs, ordering by activity), the application's event handling as a state machine that
  returns the outside work to do, the key handling of the merge request and pipeline
  action popups, view configuration and tabs, and the text shown in the merge request
  popup. Each public function states its result in `ensures`; the `law_*` proof
  functions state properties that span several calls.
- `app/` is ordinary Rust around it: reading and writing the TOML files, performing the
  actions (GitLab requests, browser, clipboard, logging), converting key events and
  drawing with ratatui.
- `tests/` runs the library on concrete values.
