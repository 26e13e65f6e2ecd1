# system_tuner

A Linux system tuner (kernel parameters, services, swap/ZRAM/TRIM/disks, CPU
governor and power profiles), with its logic verified by Verus.

- `src/` is the verified library: text primitives with the meaning std gives
  them (`text`, `number`), the reading of what the system reports and the
  commands that change it (`backend`), the state and decisions of each page
  (`pages`), and the window's page switching (`app`).
- `app/` is the program: it runs the commands, reads the files, hands the
  library plain values and draws the window with eframe.
- `tests/` run the library on concrete values.
