use twelve_knights_vigil::coordinate::Coordinate;

#[test]
fn coordinate_new_keeps_components() {
    let c = Coordinate::new(3, -1);
    assert_eq!(c.x, 3);
    assert_eq!(c.y, -1);
}
