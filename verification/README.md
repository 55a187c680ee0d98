# qwen35_batch

Batched serving of Qwen3.5 models, with the bookkeeping verified by Verus.

- `src/` is the library: GGUF validation and load plans, DeltaNet and key/value state with
  snapshots, slots and checkpoints, prefill and decode batches, multimodal positions,
  speculative drafting, expert routing, kernel launch sizes. Floats are held as their bits,
  tensors as handles.
- `app/` runs the tensors: it loads weights, computes what the library plans, and hands the
  results back. It holds all floating-point work and all I/O.
- `tests/` exercise the library from outside.

Decode graphs and hand-written CUDA or Metal kernels are planned in `src/` (`graph`,
`kernels`, `batch_step`, `device_state`) and not launched by `app/`, which computes with the tensor crate alone.
