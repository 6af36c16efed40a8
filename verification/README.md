# myquat

A quantum computing library whose logic is verified with Verus.

- `src/` — the verified library: gates and circuits (every addition checked
  against the circuit's widths), gate decomposition and expansion, gate
  inversion, classical control, device topologies with shortest paths and
  SWAP routing, unitary folding for error mitigation, recognition of
  variational, qDRIFT, Trotter and decomposed Pauli-rotation structure,
  benchmark circuits, the amplitude-moving two-qubit gates and the
  amplitude pairs a single-qubit gate combines, the angles of gate
  matrices, measurement counts, error statistics and recovery choice, and
  the configuration, selection and job bookkeeping of compute backends.
  Real numbers are carried as their IEEE-754 binary64 encodings.
- `tests/` — tests of the library on concrete values.
- `app/` — what the library leaves to ordinary Rust: reading configuration
  files and the environment, serialisation, probing the machine, sleeping
  between retries, and the floating-point scoring and arithmetic (gate
  matrices, state-vector kernels, confidence scores and the restoration
  pipeline built on them).
