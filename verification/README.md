# queue_bench

A throughput benchmark for concurrent FIFO queues (crossbeam's `SegQueue` and
`ArrayQueue`, UBQ, RBBQ): every thread repeatedly puts its token into a shared
queue and takes one out, and a run is timed until its measurements settle.

- `src/` is the verified library: the naming scheme that selects a queue from
  the program's name (`names`), the settings read from the environment and the
  command line (`settings`), the queues and the per-thread workload (`queues`),
  the check of the tokens handed back (`results`), character-level text helpers
  (`text`), and the laws of the naming scheme (`laws`).
- `app/main.rs` is the program: it reads the environment, spawns and pins the
  threads, times them, computes the floating-point statistics and prints.
