# stk

`stk` keeps SSH tunnels up: local and remote port forwards, and SOCKS5 and HTTP proxies, each
carried by a small pool of SSH sessions per host that is grown, drained and replaced as needed.

The crate has two parts.

- `src/` is the library: everything that decides something. It is written in Verus; every
  function states what it returns or changes, and Verus proves it.
- `app/` is the program around it: command line, files, sockets, processes, the SSH client. It
  hands the library plain values and does what the library decides.

## The library

| Modules | What they decide |
| --- | --- |
| `text`, `paths`, `order`, `named`, `arith` | texts, paths, stable orders, maps under names |
| `address`, `authority`, `outbound` | addresses and targets, how they are written and read |
| `environment`, `config_path` | where the configuration lies |
| `config`, `config_check` | settings, their defaults, and what makes a configuration valid |
| `ssh_syntax`, `ssh_files`, `ssh_source`, `ssh_forwards`, `ssh_plan` | the user's SSH configuration: its lines, its files, the text they make up, the forwards it asks for, and the way to a host |
| `network` | what is told of the machine's network |
| `ssh_policy`, `ssh_pool`, `ssh_manager`, `ssh_monitor` | the sessions of a host: when they start, serve, drain and leave |
| `ssh_channel`, `ssh_dial`, `health` | which session and which host carries a connection |
| `ssh_connect`, `handshake` | how a session is opened: transports, host keys, authentication |
| `ssh_remote`, `ssh_handover` | remote forwards: where they lead and which session holds them |
| `inbound`, `http` | what clients of a proxy say, and what they are answered |
| `engine`, `reload`, `control`, `status`, `proxy_env` | the running program, its configuration file, its control endpoint, what it tells of itself, and the environment for other commands |

Times and durations are nanoseconds. Paths are texts; how they are written, on Unix or on
Windows, comes as an argument. What takes a look at the disk or the network is asked for: such a
function says what it needs, and is called again with the answer.

A few functions of other crates are called behind a stated contract that is not proved:
`Authority`, `HeaderMap` and `Uri` of `http`, and `HostClause` and `SshConfig` of `ssh2-config`.
Each such contract stands with a comment that names the function.
