use ising::spin::Spin;

#[test]
fn flip_toggles_between_up_and_down() {
    let mut s = Spin::UP;
    s.flip();
    assert_eq!(s, Spin::DOWN);
    s.flip();
    assert_eq!(s, Spin::UP);
}

#[test]
fn spin_converts_to_plus_and_minus_one() {
    assert_eq!(i32::from(Spin::UP), 1);
    assert_eq!(i32::from(Spin::DOWN), -1);
}

#[test]
fn spin_reads_plus_and_minus_one() {
    assert_eq!(Spin::try_from(1), Ok(Spin::UP));
    assert_eq!(Spin::try_from(-1), Ok(Spin::DOWN));
}

#[test]
fn spin_refuses_other_integers() {
    assert_eq!(Spin::try_from(0), Err("Invalid spin value"));
    assert_eq!(Spin::try_from(2), Err("Invalid spin value"));
    assert_eq!(Spin::try_from(-2), Err("Invalid spin value"));
    assert_eq!(Spin::try_from(i32::MAX), Err("Invalid spin value"));
    assert_eq!(Spin::try_from(i32::MIN), Err("Invalid spin value"));
}

#[test]
fn spin_converts_to_and_from_booleans() {
    assert_eq!(Spin::from(true), Spin::UP);
    assert_eq!(Spin::from(false), Spin::DOWN);
    assert!(bool::from(Spin::UP));
    assert!(!bool::from(Spin::DOWN));
}

#[test]
fn spin_survives_both_round_trips() {
    for s in [Spin::UP, Spin::DOWN] {
        assert_eq!(Spin::from(bool::from(s)), s);
        assert_eq!(Spin::try_from(i32::from(s)), Ok(s));
    }
}

#[test]
fn spin_renders_as_plus_and_minus() {
    assert_eq!(Spin::UP.to_string(), "+");
    assert_eq!(Spin::DOWN.to_string(), "-");
}
