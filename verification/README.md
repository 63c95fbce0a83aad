# usbackup

A USB backup agent: when a known USB key is plugged in, its folders are
mirrored onto it with rsync, driven by a configuration stored on the key and
authenticated with HMAC-SHA256.

- `src/` is the verified library (Verus). It holds the configuration model,
  signing and checking of device configurations, the backup decisions (which
  mounted disk is the device, where each rule writes, rsync arguments, rsync
  progress, log naming), the configuration wizard's decisions, the dashboard's
  activity log, and the text handling they rest on. Calls into `hmac`/`sha2`,
  `rand`, `chrono` and a few standard-library functions sit behind small
  trusted wrappers whose contracts say what the library relies on.
- `app/` is the program around it: USB hot-plug watching, udev, udisks, rsync
  processes, files, TOML, HTTP, desktop notifications and the terminal UI.
- `tests/` exercise the library on concrete values.
