# blockd_core

The core of a block daemon: what a host decides when it serves memory and disks
to guests, keeps them durable on a device, with a second keeper and in an
archive, and hands them over between hosts.

`src/` holds the decisions. Each is a function from what the host knows and what
just happened to what it knows afterwards and what is to be done next; its
contract says exactly that, and Verus proves it. Long operations are courses:
an enum of steps, and one function for each answer that comes back. Properties
that span several functions are public proof functions beside them.

| Module | About |
| --- | --- |
| `format`, `dbproto` | frames, and the protocol of databases |
| `authority`, `placement`, `engine::authority`, `engine::lease` | who a host is, and when it must stop acting |
| `objects`, `manifest`, `head`, `journal` | what is stored, and under which names |
| `engine::database`, `task`, `persist`, `committing`, `hydration` | databases: requests, commits, page maps |
| `engine::fault`, `fetch`, `serving`, `archive` | page faults |
| `engine::capture`, `capturing`, `checkpoint`, `compaction`, `checksum`, `records` | captures of volumes |
| `engine::publish`, `publication`, `heads` | archived states |
| `engine::recovery`, `reconcile` | opening volumes after a restart |
| `engine::lineage`, `bases` | bases and forks |
| `engine::schedule`, `sources`, `keyed_queue`, `stash`, `stats` | background work, queues, second keepers, figures |

`app/` runs these decisions against devices, stores, guests and peers. It
awaits and retries; encoding of stored bytes lies behind its `World` trait.

`tests/` drives the courses on concrete values.
