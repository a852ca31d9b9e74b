# terax

The verified core of a terminal workspace application, written in Verus.

- `src/workspace.rs`: the registry of authorized workspace roots, WSL paths,
  decoding of `wsl.exe` output, and the choice of a distribution's shell.
- `src/git/`: git operations as plans (`operations.rs`) that ask their caller
  for each piece of outside work (canonicalizing a directory, running git,
  reading a file) and decide everything else; the parsing of git's output
  (`parse.rs`); the laws every operation keeps (`laws.rs`).
- `src/pty/`: the process a terminal starts (program, arguments, environment,
  working directory) on Unix, on Windows and inside WSL.
- `src/net.rs`: the policy of the AI HTTP proxy: URL validation, host
  classification, header sanitizing, redirects, and the steps of a request.
- `src/text.rs`: the string functions the rest is built on.
- `app/`: the outside work: processes, files, the network, the terminal's
  `CommandBuilder`, and serde forms of the library's types.
- `tests/`: tests on concrete values.
