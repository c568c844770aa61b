use axiom_sandbox::types::position::Position;

#[test]
fn test_position_is_active() {
    assert!(Position::Long.is_active());
    assert!(Position::Short.is_active());
    assert!(!Position::Flat.is_active());
}

#[test]
fn test_position_opposite() {
    assert_eq!(Position::Long.opposite(), Position::Short);
    assert_eq!(Position::Short.opposite(), Position::Long);
    assert_eq!(Position::Flat.opposite(), Position::Flat);
}
