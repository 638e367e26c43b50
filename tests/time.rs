use keep_keeping::{latest_modification_time, Timestamp};

fn at(seconds: i64, nanos: u32) -> Timestamp {
    Timestamp { seconds, nanos }
}

#[test]
fn later_compares_seconds_then_nanos() {
    assert!(at(20, 0).is_later_than(&at(10, 999_999_999)));
    assert!(at(10, 5).is_later_than(&at(10, 4)));
    assert!(!at(10, 4).is_later_than(&at(10, 4)));
    assert!(!at(-1, 0).is_later_than(&at(0, 0)));
}

#[test]
fn watermark_of_empty_directory_is_epoch() {
    assert_eq!(latest_modification_time(&Vec::new()), Timestamp::zero());
    assert_eq!(Timestamp::zero(), at(0, 0));
}

#[test]
fn watermark_is_latest_time() {
    let times = vec![at(10, 0), at(30, 1), at(30, 0), at(20, 7)];
    assert_eq!(latest_modification_time(&times), at(30, 1));
}

#[test]
fn watermark_before_epoch() {
    let times = vec![at(-50, 0), at(-5, 3)];
    assert_eq!(latest_modification_time(&times), at(-5, 3));
}
