use tether_quart::components::settings::boundary_values::BoundaryValues;

#[test]
fn decimal_limits() {
    assert_eq!(BoundaryValues::MIN_TOL_DECIMALS, 6);
    assert_eq!(BoundaryValues::MAX_TOL_DECIMALS, 7);
    assert_eq!(BoundaryValues::MIN_H_DECIMALS, 1);
    assert_eq!(BoundaryValues::MAX_H_DECIMALS, 5);
    assert!(BoundaryValues::MIN_TOL_DECIMALS <= BoundaryValues::MAX_TOL_DECIMALS);
    assert!(BoundaryValues::MIN_H_DECIMALS <= BoundaryValues::MAX_H_DECIMALS);
}
