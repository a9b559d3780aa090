# octos-agent

The tools of a coding agent: patches and edits, shell commands, static checks, images,
subagents, plans, tool discovery, profiles and workspace snapshots.

The decisions are in `src/`, where every function has a contract that Verus proves. A function
there takes plain values and gives plain values: what a model asked for, what was found on disk,
what a process wrote. Where work outside goes on between two decisions, the decisions are a
state machine that says what to do next and is fed what came of it (`apply_patch::Run`,
`snapshot_manager::Take` and `Restore`, `command_capture::StreamDrain`).

| Part | Modules |
| --- | --- |
| Texts, bytes, JSON, paths | `text`, `bytes`, `utf8`, `json`, `codec`, `paths` |
| Patches and edits | `diff`, `diff_edit`, `patch`, `apply_patch`, `workspace` |
| Commands and checks | `command`, `command_capture`, `processes`, `check`, `diagnostics` |
| Subagents | `agents`, `tasks`, `spawn_agent`, `delegate` |
| Profiles | `profile`, `manifest`, `manifest_text`, `policy` |
| Snapshots | `snapshot`, `snapshot_manager`, `restore_paths`, `restored_files`, `snapshot_store` |
| What a model sees | `tool`, `schemas`, `listing`, `catalog`, `plan`, `image` |
| Sessions | `prompt_context`, `task_file_state` |

What the library as a whole promises stands beside the functions as public proof functions, for
example `apply_patch::unchanged_claim_is_honest`, `workspace::planned_patches_fit`,
`check::sandboxed_checks_never_run_bare` and `snapshot_store::restores_end_with_the_snapshot`.

Calls into `serde_json`, `toml`, `sha2`, `shlex` and a few functions of the standard library
stand behind small wrappers marked `external_body`. The comment above each says what is taken
for granted of it.

`app/` is ordinary Rust around the library. It reads and writes files, starts processes and
waits. `tests/` runs the library from outside.
