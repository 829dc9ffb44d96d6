# freqfs

An in-memory filesystem cache with least-frequently-used eviction, whose rules are verified with
[Verus](https://github.com/verus-lang/verus).

`src/` is the verified library. It decides; it neither waits nor touches the disk.

- `state` keeps the books of a cache: which files it ranks, how many bytes they retain, who waits
  for bytes, and when files have to be evicted. `lfu` is the ranking, `gc` a round of eviction.
- `cache` joins the books with the handles and channels that tasks wait on. `channels` are these,
  with a count of what has been done with them.
- `file` is a file of a cache: what it takes to lock it, back it up, evict it, delete it or
  overwrite it.
- `persist` is how a file is written back: to a temporary twin first, which then takes its place.
  `disk` is what is asked of the disk before, and `path` names the twin.
- `contents` states what all of this is for: whoever reads a file sees what was last written.
- `backpressure` decides which devices may be given new work.
- `error` are the errors.

`app/` is the asynchronous shell around it, on top of `tokio`: locks, guards, files, the task which
evicts files, and the arithmetic on scores. `tests/` runs the library.

`sync` writes cached changes to the filesystem without forcing durability, and so does the eviction
of a file which has changed. Neither promises that they survive a loss of power.
