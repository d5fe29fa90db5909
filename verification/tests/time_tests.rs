use zebra::time::TimeDelta;
use zebra::Time;

#[test]
fn test_from_float_roundtrip() {
    // A span written as fractional seconds; the conversion to the clock's
    // millisecond resolution happens outside the library.
    let millis_in: i64 = (3.5f32 * 1000.0).round() as i64;
    let t = TimeDelta::from(millis_in);
    let TimeDelta(millis) = t;
    assert_eq!(millis, 3500);
}

#[test]
fn test_add_to_time() {
    let t = TimeDelta::from_secs(15);
    let st: Time = 10_000i64;
    let result = t + st;

    assert_eq!(result, 25_000);
}

#[test]
fn test_new_millis() {
    let t = TimeDelta::new(500);
    assert_eq!(t.millis(), 500);
}
