# vigilo

The verified core of a webcam proctoring app.

- `src/config.rs`: the configuration that has no fractional numbers
  (capture, model paths and slots, execution providers, runtime, fusion
  severities, object buckets), its defaults, and the rules that check it.
- `src/coco.rs`: the classes the object model can produce.
- `src/capture.rs`: naming camera failures, and packing a camera plane into
  a tight RGB frame.
- `src/preview.rs`: the preview's encode statistics, the MJPEG part framing
  and reader state, routing, and the preview JPEG encode.
- `src/shell.rs`: the desktop shell's command line, resource lookup, and
  error explanations.
- `src/text.rs`, `src/error.rs`: character helpers and the error type.
- `app/`: the Tauri shell, camera capture through ccap, the preview thread
  and HTTP server, and the configuration with its floating-point thresholds,
  loaded from TOML or JSON.
