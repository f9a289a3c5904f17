# logi_headset

A Linux tool for Logitech wireless headsets that speak HID++: it turns the mute
button into a media key (single and double click), sets the LEDs, and warns when
the battery runs low. A GTK panel edits the configuration and shows the live
state published by the daemon.

## Layout

- `src/` — the library, verified with Verus: HID++ report building and parsing,
  the configuration file format, the battery monitor and its calibration
  curves, the click logic of the main loop, the uinput records, the panel's
  settings file and status files, and the laws that tie the daemon and the
  panel together (what the panel writes is what the daemon reads).
- `tests/` — tests of the library on concrete values.
- `app/` — the two programs around it: the daemon (hidraw and uinput through
  libc, signals, the clock, status files) and the GTK4 / libadwaita panel. They
  do the I/O and hand every decision to the library.
