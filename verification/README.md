# opcda-bridge-gateway

The gateway between OPC DA servers and callers on the network. It browses
namespaces in sessions with opaque cursors, keeps a searchable index of every
configured server, and builds that index without getting in the way of
foreground work.

The logic of the gateway is a library verified with Verus. Every function states
what it returns and what it changes; properties that span several functions are
public proof functions next to the code they speak of.

## Layout

- `src/config.rs`, `src/logging.rs`, `src/paths.rs`: settings, log settings, and
  where files stand.
- `src/controller.rs`, `src/measurement.rs`, `src/host_metrics.rs`: how fast an
  inventory may run.
- `src/browse.rs`, `src/browse/`: browse sessions, their cursors and cached pages.
- `src/index/`: the namespace index. `generations`, `entries`, `storage` and
  `profile` say what is stored; `search`, `ranking`, `cache` and `lookup` how it
  is searched; `refresh`, `inventory_run`, `builds`, `health`, `schedule` and
  `background` when and how it is built; `cleanup` how old data goes; `manager`,
  `runtime`, `metrics` and `status` what is known of running builds.
- `src/opc.rs`, `src/opc_da_adapter.rs`: the values of OPC DA servers.
- `src/text.rs`, `src/numerals.rs`, `src/time.rs`, `src/collections.rs`,
  `src/tokens.rs`: texts, numerals, times, small collections, identifiers.
- `app/`: the program around the library: files, SQLite, the OPC client, tasks.
- `tests/`: tests of the library.

The long-running operations of the library are state machines. Each takes what
came of the last action and says what to do next; the program performs it.
