use andino::sensors::WheelTicks;

#[test]
fn test_wheel_ticks_new() {
    let wheel = WheelTicks::new(1000);
    assert_eq!(wheel.ticks_per_revolution(), 1000);
    assert_eq!(wheel.last_ticks_count(), 0);
}

#[test]
fn test_wheel_ticks_advance_sequence() {
    let mut wheel = WheelTicks::new(1000);
    // The first update measures against the implicit initial count of zero.
    assert_eq!(wheel.advance(500), 500);
    assert_eq!(wheel.last_ticks_count(), 500);
    assert_eq!(wheel.advance(1000), 500);
    assert_eq!(wheel.last_ticks_count(), 1000);
    // The encoder turned backwards.
    assert_eq!(wheel.advance(500), -500);
    assert_eq!(wheel.last_ticks_count(), 500);
    assert_eq!(wheel.ticks_per_revolution(), 1000);
}

#[test]
fn test_wheel_ticks_advance_negative_counts() {
    let mut wheel = WheelTicks::new(700);
    assert_eq!(wheel.advance(-250), -250);
    assert_eq!(wheel.advance(-100), 150);
    assert_eq!(wheel.last_ticks_count(), -100);
}
