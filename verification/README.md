# wayland-display-core (verified core)

The verified part of the Wayland display core's GPU and CUDA/EGL glue,
written in Verus.

- `src/text.rs` — white space, trimming, prefixes and the splitting of text
  into lines, with their specifications.
- `src/pci_ids.rs` — lookup of a device name in a `pci.ids` database, with
  laws about what a lookup finds.
- `src/sysfs.rs` — sysfs paths of a DRM card, the ids in its `vendor` and
  `device` files, hexadecimal parsing, and the GPU's name.
- `src/gpu.rs` — the `GPUDevice` description and the search of a device by
  DRM node.
- `src/cuda.rs` — CUDA result names and error messages, the one-time
  initialisation, the plan of per-plane copies from an EGL frame, and the
  step function of the copy into new GStreamer memory (which context pushes,
  mappings and references each step releases).
- `src/egl.rs` — the attribute list that imports a DMA-BUF as an EGL image.
- `app/` — the FFI and I/O around it: EGL device enumeration, file reads,
  CUDA, EGL and GStreamer calls.

## The PCI vendor

A `GPUDevice` keeps its PCI vendor as the number read from the card's sysfs
`vendor` file (`0x10de` for NVIDIA, for instance). The project's `PCIVendor`
type, with its conversion from that number, is not part of these sources, so
the vendor is not mapped to a named vendor and no vendor number is refused.

## Dependencies

`smithay` and the GStreamer crates serve `app/`; the library takes `DrmNode`
from `drm`, the crate that `smithay` re-exports it from. `kstring` is not used
directly: the GStreamer crates depend on it, and its newest release needs a
newer compiler (rustc 1.96) than the one the project builds with, so the
dependency holds it at 2.0.2.
