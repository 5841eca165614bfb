# Yard

A small deployment tool for self-hosted Docker Compose projects, built around a verified library.

`src/` holds what the tool decides, computes and writes, verified with Verus: every function there
has a contract, and the promises that hold across functions are stated and proved as `law_`
functions next to what they speak of.

- Grammars and values: `text`, `number`, `order`, `table`, `time`, `json`, `url`
- Manifests, records and errors: `config`, `state`, `error`, `envfile`, `journal`, `points`
- Commands and what they tell: `command`, `project`, `images`, `host`, `service_health`, `monitor`
- Procedures, each as a machine that names the next action and takes its outcome: `deploy`,
  `activation`, `backup`, `restore`, `images`, `atomic_file`, `copies`, with the shared vocabulary
  in `operation`
- Views: `status`, `cli`, and `web` with `http` for the status page

`app/` is the program around it: arguments, files, processes, HTTP, and the copies of records that
`serde` and `clap` read and write. Installed as `yard` it is the command line; under the name
`yard-web` it serves the status page.

`tests/` runs the library on concrete values; `tests/releases.rs` runs deployments and restores
against a project that lives in memory.
