# facecam

Diagnostics and recovery logic for the Elgato Facecam, verified with Verus.

`src/` is the verified library:

- `device`, `quirks`, `usb`: product identification, firmware versions,
  the quirk registry and which quirks apply, enumeration and sysfs decisions.
- `recovery`, `watchdog`: the reset-and-retry protocol as a state machine,
  the wait/presence decisions, the watchdog step.
- `v4l2`, `fuzz`: parsing of `VIDIOC_QUERYCAP` / `VIDIOC_QUERYCTRL`
  responses and the device-identification fuzz harness.
- `profiles`, `config`, `ipc`: built-in profiles, configuration defaults and
  file locations, daemon commands and responses.
- `overlays`, `waterfall`, `ab_compare`: framebuffer overlays (zebras, focus
  peaking, RGB histogram, waveform, timing waterfall, A/B split view).
- `text`, `order`, `formats`: text rendering, ordering of names, pixel formats.

`app/` holds the command-line tool around it: USB access through libusb,
sysfs and file I/O, TOML/JSON (de)serialisation, the async watchdog task,
and the floating-point measurements (BT.709 luma, frame-time ratios, split
position) that feed the verified drawing code.

`tests/` exercises the library on concrete values.
