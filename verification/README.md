# quill

The decision-making core of an AV1 transcoding front end, verified with Verus.

`src/` holds the library, each function with a contract that Verus proves:

- `text` — white space, trimming, splitting into words, prefixes, `u64` parsing,
  decimal rendering and joining, with the standard library's semantics.
- `ram` — the memory total read from `/proc/meminfo` lines or a tool's byte count.
- `allocator` — preset, thread cap, target bitrate and rate-control option for a host.
- `transcode` — the `ffprobe` and `ffmpeg` argument lists.
- `probe` — the decisions of a time-limited wait for `ffprobe`.
- `telemetry` — where the feature pre-scan reads a file.
- `cli` — the command line.

`app/` is the program around it: file and process I/O, timing, printing and the
floating-point measures (DCT, complexity index, bitrate from size and duration).
`tests/` runs the library on concrete inputs.
