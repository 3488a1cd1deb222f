# Tether Quart

A desktop simulator of a quadrangular tethered grouping of microsatellites:
four satellites joined by tethers spin apart under low thrust while the
tether tensions are regulated; the equations of motion are integrated with
the Runge-Kutta-Fehlberg 4(5) method.

- `src/` is the verified library (Verus): the control panel's state machine
  (`app`), the worker's control state and its agreement with the panel
  (`simulation_worker`), the dashboard's plot list with its unique
  identifiers (`components::plots`, `decimal`), the rendering of the About
  page's formulas to SVG through the `ratex` crates and the cache that renders
  each formula once (`components::about`: what the parser, the layout and the
  renderer compute is named and trusted; the library proves which of them it
  calls on what, what it returns on each outcome, and what the cache gives
  back),
  and the display limits of the settings panel
  (`components::settings::boundary_values`).
- `app/` is the program around it: the egui/eframe user interface, the file
  dialogs, the worker thread, and the floating point model and solver.
- `tests/` exercises the library.
