# sphene

A bounded native image-conversion path for ImageMagick-shaped command lines,
whose decisions carry contracts that are proved.

- `src/` — the verified library:
  - `cli` decides whether a command line can run natively or goes to
    ImageMagick (`needs_fallback`) and why (`fallback_reason`), and reads resize geometries and qualities;
  - `options` reads the flags of a native command line;
  - `invocation` strips the `convert` subcommand, spots help requests, lists the
    ImageMagick executables (system paths, then `PATH`), picks one and builds
    the arguments forwarded to it;
  - `limits` holds the 250-megapixel and 50 MiB ceilings;
  - `pipeline` is the conversion as a state machine: each step it asks for
    (read the file size, read dimensions, decode, resample, encode) comes after
    the checks that guard it;
  - `formats` picks the encoder and quality from the output extension;
  - `avif` checks what the AVIF codec reports and copies RGBA rows to and from
    its strided buffers;
  - `laws` proves properties that span several functions.
- `app/` — the `sphene` program: argument parsing with clap, file I/O, the
  `image`, `webp` and libavif codecs, floating-point resampling, and spawning
  ImageMagick.
- `tests/` — tests run against the compiled library.
