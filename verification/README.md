# hypnos_core

A Discord bot that manages game servers running in tmux sessions: it bridges
chat between Discord and the servers, runs a whitelist of in-game commands,
lets trusted users type commands into sessions, rebuilds itself, and keeps
rotating backups.

The decisions of the bot are a library verified with Verus (`src/`):

- `text` — strings as character sequences: search, replacement, splitting,
  ASCII filtering and UTF-8 byte offsets, with their specifications.
- `chat` — removal of Minecraft formatting codes, the keys typed into tmux,
  the in-game command mapping and the pipe files.
- `log` — the scan of a session's pipe file: which lines are relayed to
  Discord, which in-game command runs, and the line counter.
- `bridge` — what a Discord message makes the bot type into the sessions,
  which calculations it asks for and which bot command it names.
- `commands` — `execute`, `script`, `sessions` and `recompile`.
- `backup` — the `backup` command, the listing, archive names, the retention
  rule and the steps of making a backup.
- `config` — the configuration values and checks, the command line and the
  backup schedule.

`app/` is the program around it: it reads files, talks to Discord with
serenity, runs tmux and the backup tools, and parses the TOML configuration.
`tests/` exercises the library on concrete inputs.
