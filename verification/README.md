# block_storage

A log-structured block volume on a file, verified with Verus, and the programs around it: a block
device daemon, a privileged mount helper, and a lab that tests the daemon under fio and ext4.

## How the volume works

A volume has 4 KiB logical blocks. Each write appends a payload and a footer to a log; a map in
memory says where the newest payload of every logical block stands, and a checksum guards it. A
checkpoint writes the map to one of two slots, the one that the last checkpoint did not use, and
then a descriptor that makes it valid. Opening takes the newest checkpoint whose body is intact,
replays the records behind it, and clears the blocks after the last of them, as far as one more
record could reach. A write that would come closer than that to blocks which were not cleared
clears and syncs more of them first, so that what opening has once ignored never comes back.

The library does no input or output. `Volume` and `Opening` are state machines: each operation
hands out the block request that it needs, and is told the reply.

## What is proved

* The encodings of descriptors, footers and maps, and that decoding gives back what was encoded.
* What each operation of a volume asks for and does, step by step, for every reply.
* What opening finds on a disk, as a function of the disk alone, and that a whole opening ends with
  it, clears what stands behind the log, and changes nothing where it fails (`src/opening.rs`).
* That writes, clearing, checkpoints and reopening keep every block (`src/durability.rs`), and that
  the older checkpoint stands in for a damaged newer one without loss (`src/fallback.rs`).
* That a crash leaves all that was flushed and a prefix of what was not (`src/crash.rs`), at any
  request of any operation, from the making of the volume on and one crash after another
  (`src/history.rs`). A block that was written since the last sync may hold anything afterwards.
  Left out are a block that passes for the footer which the crash has lost before it, a torn
  descriptor that passes for a whole one, and a volume made where a valid footer of the same
  identity already stands at the start of the log.
* The decisions of the mount helper and of the lab: what they accept, in which order they act, and
  what they leave alone when something is not as it was recorded.

Public proof functions whose names begin with `law_` state the properties that span functions.

## Layout

* `src/`: the verified library. The engine: `layout`, `descriptor`, `footer`, `body`, `checksum`,
  `device`, `completion`, `volume`, `recovery`, `replay`, `opening`, `durability`, `fallback`,
  `crash`, `history`. The daemon's settings: `target`. The mount helper: `mounts`, `mount_helper`,
  `mount_plan`. The lab: `lab`.
* `tests/`: tests of the library on a backing held in memory and on facts written out by hand.
* `app/`: the programs, which do the input and output. They run on Linux with `io_uring` and the
  ublk driver.

XXH3 comes from the `xxhash-rust` crate. `src/checksum.rs` says what is taken on trust about it.
