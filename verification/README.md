# ssh_bastion_rs

An SSH bastion: a server that hands each connected client a forward port, and
a client that relays the users arriving on that port to a local address
(typically its own SSH daemon).

- `src/` is the verified library (Verus): the tunnel framing and its
  round-trip laws (`wire`), the forward-port search (`forward_port`), the
  per-host memory of ports (`host_ports`), user ids (`user_ids`), the tables
  of live connections (`conn_table`), the frames a relay sends for each read
  (`relay`), the note left for the operator (`client_info`) and the settings
  (`config`).
- `app/` holds the sockets, tasks, configuration files and logging around it.
- `tests/` runs the library on concrete values.
