use polyrhythm::motion::{travel_distance, MAX_TRAVEL};

#[test]
fn travel_of_a_frame() {
    assert_eq!(travel_distance(300, 16_667), 5_000);
    assert_eq!(travel_distance(400, 1_000_000), 400_000);
    assert_eq!(travel_distance(100, 999), 99);
    assert_eq!(travel_distance(300, 0), 0);
}

#[test]
fn travel_never_overflows() {
    assert_eq!(travel_distance(400, u64::MAX), MAX_TRAVEL);
}
