# x870e_lcd

Tools for the 5-inch LCD panel of ASUS ROG Crosshair X870E motherboards (Extreme
`0b05:1c83`, Glacial `0b05:1d93`): display modes and brightness, custom images in the
panel's SPI flash slots, hardware telemetry, live frame streaming, and the firmware
streaming patch and USB flasher.

The library under `src/` is written in Verus: every function carries a contract, and the
verifier proves each function's body against it, except for the small wrappers marked
`#[verifier::external_body]` that call the `image`, `jpeg-encoder` and `chrono` crates and
read the system clock. Those wrappers' contracts are trusted, not proved; their doc comments
say what each one claims of the outside code. The laws that span several functions stand as
proof functions.

- `protocol`, `protocol/upload`: HID packets of the panel and of the image upload.
- `session`: the upload, erase and frame-stream procedures as step-by-step sessions that
  decide each HID/bulk action from the panel's answers.
- `patches`, `firmware`: Sum32 checksums, the streaming patch, firmware inspection and diffs.
- `flash`: the bootloader flashing session and image checks.
- `catalog`: the host-side catalog of flashed slots.
- `picture`, `imaging`: pictures, resizing, JPEG encoding and the JFIF component-ID fix.
- `renderer`, `media`, `stream`: drawing into the 720x1280 BGRA frame, themes, test
  patterns, clocks, framing options and the choice of each streamed frame.
- `hwmon`, `netdev`, `text`: telemetry metrics, `/proc/net/dev` totals and text helpers.

`app/` holds the command-line front end: device I/O over HID and USB, files, the
sensor readings, ffmpeg, and the argument parser. `tests/` runs the library on concrete
values.
