use std::time::SystemTime;
use zerotable::now_millis;

#[test]
fn test_now_millis_truncation() {
    let ts = now_millis();
    let duration = ts.duration_since(SystemTime::UNIX_EPOCH).unwrap();

    assert_eq!(
        duration.subsec_nanos() % 1_000_000,
        0,
        "now_millis should have 0 nanoseconds remainder beyond the millisecond"
    );
}
