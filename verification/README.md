# allium

The settings, configuration formats and decisions of Allium, a launcher and system daemon for
Miyoo handhelds, as a library verified with Verus.

- `src/` is the library. Every function in it carries a contract that Verus proves: how the
  settings files are read and sanitized, RetroArch's override files and how edits to them merge,
  update versions and download checks, the settings screens' rows and what an edit writes back,
  the daemon's key handling and power decisions, the on-screen display's layout and text, the
  framebuffer's pixel layout, the clock and backlight curves, guide lookup, and Wi-Fi
  configuration. The few calls into `std::path`, `std::string`, `sha2` and `const_hex` stand
  behind small wrappers whose contracts are stated next to them and are not proved.
- `app/` is a partial device side: reading and writing the settings files, the override
  files, the CPU clock registers and the backlight, updates over the network, Wi-Fi scripts and
  the `myctl` command line. It hands what it reads to the library and carries out some of what the
  library decides. The daemon's event loop, the on-screen display, the framebuffer stamper and
  the settings screens' drawing are not in it: they belong to the device's platform layer.
- `tests/` runs the library on concrete values.
