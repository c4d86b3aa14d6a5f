# axleops

Start/stop management for services (JAR files, scripts, plain commands)
across machines: an agent on each machine, an admin control plane, and a
boundary proxy between them.

The decisions of all three live in `src/`, verified with Verus:

- `src/agent/`: service specs and their stored definitions, how a service is
  launched (target, working directory, interpreter), the stop sequence as a
  state machine, process-tree bookkeeping, service names on disk, log
  decoding, artifact versions (publish, activate, rollback, prune), and the
  checks behind the agent's HTTP routes.
- `src/admin/`: users, password hashing and sessions, agent and proxy
  registry updates, how replies from agents become values or errors, the
  cross-agent overview, token rotation, upstream import, audit limits and
  the CORS policy.
- `src/proxy/`: the upstream registry (create, update, remove, list), how a
  request is forwarded and its reply relayed, and token verification steps.
- `src/text.rs`: text helpers and their specifications shared by all three.

`app/` holds the servers themselves (HTTP routing, SQLite, files, child
processes, outgoing requests); it calls the library for every decision.
`tests/` exercises the library on concrete values.
