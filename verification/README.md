# cargo_hold — cargo home cleanup

A verified library that decides which parts of the cargo home (`~/.cargo`)
a garbage collection run removes: old crate archives in `registry/cache`,
old git checkouts and databases, old unpacked sources in `registry/src`, and
old installed binaries in `bin` that neither belong to the toolchain nor are
preserved by the configuration.

- `src/gc/cargo.rs`: the cleanup rules — age cutoffs, per-entry decisions,
  the sweeps of a listing, the registry areas and the totals of a run.
- `src/gc/sweep.rs`: selecting what a sweep removes and totalling its size.
- `src/gc/config.rs`: the settings a run reads.
- `src/gc/laws.rs`: properties that hold of every sweep.
- `app/`: the file system side — listing directories, reading metadata,
  deleting what the library selects.
