pub mod boundary_values;
