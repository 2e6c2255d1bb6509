# meshfit

Verified core of a mesh-fitting and pose-rigging tool chain, written in Verus.

- `src/` — the library, its functions proved against their contracts, except two
  small trusted wrappers around `std::path::Path` (`path_extension` and
  `path_file_stem` in `mask`) whose contracts restate the standard library's
  documentation and are believed, not proved:
  - `rig` — armature descriptions and the 126-bone layout rigged onto RTMW3D
    whole-body keypoints (a single tree, keypoints in range, unique names);
  - `scene` — the node graph of a skinned glTF scene (parent table, root-to-node
    chains, with node cycles refused) and the mesh consistency checks;
  - `mask` — decisions of the batch masking tool (image files, CUDA retry, mask names);
  - `onnx` — shape-level decisions of the detection and pose pipeline;
  - `probe` — the tensor-backend probe's choices;
  - `blend` — values exchanged with the native Blender shim and the write outcome;
  - `text` — character-level helpers (ASCII lower-casing, substring search,
    zero-padded decimals).
- `app/` — the command-line program around the library: file and network I/O,
  the tensor runtimes, the native Blender shim, and all floating-point work.
- `tests/` — tests of the library on concrete values.
