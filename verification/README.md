# logitray

Battery levels of wireless Logitech devices in the Windows tray, with alerts
before they run out. The rules are a library that is verified with Verus; a thin
application around it does the input and output.

## Layout

- `src/` is the library.
  - `hid/` talks to the devices: `protocol` (messages), `exchange` (a request and
    its reply), `client` (the query of one device), `receiver` (the poll of one
    receiver), `scanner` (finding the receivers).
  - `model` holds the readings and the order in which devices are listed,
    `subject` decides which device the icon speaks for, `icon` and `label` what it
    shows.
  - `notify` decides when an alert is due, `update` when to look for a newer
    release and what counts as one.
  - `menu` is the tray menu, `tray` the state of the application, `supervisor` the
    workers that read the receivers.
  - `config` is the configuration and its files, `app` the command line and the
    log, `i18n` the languages, `shell` the opening of files and links.
  - `text`, `cut`, `order`, `textmap` and `clock` are what the rest is built on.
- `app/` is the program: threads, files, the network, the HID interfaces and the
  tray of Windows.
- `tests/` runs the library on concrete values.

Each function of the library says in its `ensures` clauses what it returns. What
holds across functions is stated by the public proof functions next to them.
