# aviutl2_ndi_live_output

The verified core of an AviUtl2 plugin that sends the current scene over NDI®.

- `src/config.rs`: the send settings, their defaults and `clamped`, with the laws that a
  clamped configuration lies within the limits and that clamping is idempotent.
- `src/text.rs`: Unicode white space and trimming over sequences of characters.
- `src/ndi.rs`: the newest-frame slot, the bounded audio queue that drops instead of waiting,
  the monitor's status reading, the plan of a send session and the runtime search order.
- `src/media.rs`: the pixel layouts a frame is sent in.
- `src/ui.rs`: labels and control states of the docking window.
- `app/`: the project file's serde form, the runtime search on disk, and the worker threads
  around the NDI® SDK.
