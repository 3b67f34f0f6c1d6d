# ssh_router

Port-based routing of Windows OpenSSH sessions to different shells (PowerShell,
Git Bash, WSL), and the back end of the tray application that configures it.

- `src/` — the verified library (Verus). Each module states its behaviour in
  `requires`/`ensures` over `Seq<char>` views and proves it; the `law_*` proof
  functions state properties that relate several functions.
  - `config`: the routing configuration, its default value, save validation.
  - `routing`: route selection by port, SFTP detection, template rendering.
  - `wsl`: Windows paths in WSL form.
  - `temp`: command script names, stale-script cleanup decisions, creation retries.
  - `launch`: UTF-16 command lines, job handles, exit codes.
  - `log`: debug log entries.
  - `elevate`, `actions`: elevated PowerShell runs, their scripts and results.
  - `status`: installation status.
  - `sync`: comparison of the bundled and deployed CLI.
  - `text`: character-level string helpers shared by the modules above.
- `app/` — plain Rust around the library: the CLI entry point, file and process
  I/O, Win32 calls, and the JSON (serde) forms of the configuration and status.
- `tests/` — tests of the library.
