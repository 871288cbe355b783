# MMB

Multi Monitor Brightness is a tray application for Windows that sets the brightness of all
monitors of a machine. Its rules are a library whose behaviour is stated in contracts and proved
with Verus; the application around it makes the calls to the system.

## The library

- `monitor_control`: finding monitors by DDC/CI and WMI, and setting their brightness. Updates
  belong to a generation of monitors and are refused once the monitors have been looked for again.
  - `ddc`: raw values and percentages, the ids of monitors, what a probe of a monitor means.
  - `display_config`: plug-and-play ids and the active display paths.
  - `wmi`: monitors that are set through WMI.
- `monitor_hardware`: the same without generations, and what there is where the system is not
  Windows. `wmi` holds the rules by which WMI objects become monitors.
- `monitor_state`: the rows of the popup and the changes that wait to be applied.
- `monitor_worker`, `theme_worker`: the commands and events of the two workers, and the helper
  process that changes the theme.
- `session`: the numbers of requests, the answers that count, and the status line.
- `popup`: where the popup stands, and which clicks make it go away.
- `windows_integration`: the work area, clicks on the desktop, the single instance, the theme.
- `text`, `wide`: text as sequences of characters, and UTF-16.

## The application

`app/` is the program: the Win32 and WMI calls, the threads, the window and the tray icon.
`hardware.rs`, `wmi_queries.rs`, `desktop.rs`, `mouse.rs` and `theme.rs` hand what the system says
to the library and carry out what the library decides.

## What is not proved

Calls to Slint's `VecModel`, `String::push` and `char::from_u32` are described by contracts that
are taken as given; their doc comments say what each one claims. The sizes of the popup are
floating-point numbers and stay in `app/layout.rs`.
