# shellmaster

The logic of an SSH client with SFTP, server monitoring and AI chat, verified with Verus.

- `src/` — the verified library: stored configurations (servers, snippets, known hosts) and
  what each edit does to them; connection stages, events, host-key decisions, authentication
  outcomes and the reconnection loop; the session and tab state; the monitoring schedule,
  retry policy and line routing; SFTP paths, directory walks and chunk plans; the external
  editor's watch table; the AI providers' endpoints, messages, replies and SSE stream parsing;
  and the decisions behind the pages. Calls into outside crates go through a few trusted
  wrappers, each documented where it is declared.
- `tests/` — tests of the library on concrete values.
- `app/` — the I/O around the library: configuration files, sockets and proxies, russh and
  russh-sftp sessions, reqwest calls, notify watches, the external editor, the monitoring
  records (floating point), and the tasks that carry out the library's decisions: following a
  new connection, reconnecting, monitoring, starting SFTP and transferring files.
