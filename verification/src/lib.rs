//! Tether Quart: the decision logic of a simulator of a quadrangular tethered
//! grouping of microsatellites — the control panel's state machine, the
//! simulation worker's control state, the plot list of the dashboard and the
//! LaTeX rendering of the formulas on the About page.
pub mod app;
pub mod decimal;
pub mod components;
pub mod simulation_worker;
