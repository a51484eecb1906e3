# vllm-coldstart-probe

Captures syscalls (`openat`, `read`, `mmap`, `close`) and libcuda calls (`cuInit`,
`cuModuleLoadData`, `cuMemAlloc_v2`, `cuLaunchKernel`) of a process while vLLM loads a
model. Each call gives an enter and an exit event; pair them on
`(pid, tid, syscall_nr)` to get the duration of the call.

- `src/` is the library, verified with Verus: record layout, emission, forwarding,
  filtering, JSON Lines output, and proofs of what a capture writes.
- `app/` is the program `vllm-probe`: `main.rs` loads and attaches the kernel-side
  programs, drains the ring buffer and writes the output; `kernel.rs` holds the
  kernel-side programs. The loader reads their object file from the path in
  `VLLM_PROBE_OBJECT`, as set when it was built.
- `tests/` runs the library on concrete values.

## Output

One JSON object per line:

```json
{"timestamp_ns":8126029867356,"pid":12855,"tid":12855,"syscall_nr":257,"kind":0,"ret":0}
```

- `timestamp_ns`: monotonic nanoseconds.
- `syscall_nr`: x86_64 syscall number, or an id from 1000 on for a libcuda function.
- `kind`: 0 for enter, 1 for exit.
- `ret`: return value of a syscall on exit, 0 otherwise.

## What is trusted

- `json::json_integer`: `serde_json` writes an integer in decimal.
- `drain::try_send`: a `tokio` channel takes an event in exactly when `try_send`
  succeeds.
