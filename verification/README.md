# headset_battery_indicator

The verified core of a Windows tray indicator that shows the battery level of
a USB headset (through the HeadsetControl C library) and lets the user switch
sidetone, the microphone light and the inactivity timeout.

- `src/headset_control.rs`: capability masks, battery readings, the device
  line, and the two sessions that drive the headset library (reading the
  device, applying a control), as state machines the program steps through.
- `src/settings.rs`: the settings, their registry values and their ini file,
  with both round trips proved.
- `src/menu.rs`: the tray menu's model; every change is handed out as menu
  commands, with the controls submenu kept in step with the headset.
- `src/text.rs`: decimal notation, white space, trimming and `u8` parsing.
- `src/lang.rs`: the keys of the interface texts.
- `app/`: the program around the library: the C library calls, the registry
  or ini file, the tray icon and menu, and the event loop.
