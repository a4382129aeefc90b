use mementic::ids::{anonymous_user, UserId};
use mementic::voting::get_previous_week_id;
use mementic::weeks::{adjust_with_offset, compute_week_id, get_week_id, normalize_timestamp_ns, WEEK_SECONDS};

#[test]
fn offsets_shift_and_saturate() {
    assert_eq!(adjust_with_offset(1000, 50), 1050);
    assert_eq!(adjust_with_offset(1000, -50), 950);
    assert_eq!(adjust_with_offset(10, -50), 0);
    assert_eq!(adjust_with_offset(u64::MAX - 1, 5), u64::MAX);
    assert_eq!(adjust_with_offset(5, i64::MIN), 0);
}

#[test]
fn week_ids_count_whole_weeks() {
    assert_eq!(compute_week_id(0, 0), 0);
    assert_eq!(compute_week_id(WEEK_SECONDS - 1, 0), 0);
    assert_eq!(compute_week_id(WEEK_SECONDS, 0), 1);
    assert_eq!(compute_week_id(WEEK_SECONDS - 1, 1), 1);
    assert_eq!(compute_week_id(WEEK_SECONDS, -1), 0);
    assert_eq!(compute_week_id(1_700_000_000, 0), 2810);
}

#[test]
fn week_ids_never_decrease_with_time() {
    let mut last = 0;
    for t in (0..10 * WEEK_SECONDS).step_by(99_991) {
        let w = compute_week_id(t, -3600);
        assert!(w >= last);
        last = w;
    }
}

#[test]
fn timestamps_are_normalized_to_nanoseconds() {
    assert_eq!(normalize_timestamp_ns(0), 0);
    assert_eq!(normalize_timestamp_ns(1_700_000_000), 1_700_000_000_000_000_000);
    assert_eq!(normalize_timestamp_ns(1_700_000_000_000), 1_700_000_000_000_000_000);
    assert_eq!(normalize_timestamp_ns(1_700_000_000_000_000), 1_700_000_000_000_000_000);
    assert_eq!(normalize_timestamp_ns(1_700_000_000_000_000_000), 1_700_000_000_000_000_000);
    assert_eq!(normalize_timestamp_ns(999_999_999_999), u64::MAX);
}

#[test]
fn nanosecond_week_ids() {
    assert_eq!(get_week_id(0), 0);
    assert_eq!(get_week_id(1_700_000_000_000_000_000), 2810);
    assert_eq!(get_previous_week_id(1_700_000_000_000_000_000), Some(2809));
    assert_eq!(get_previous_week_id(5), None);
}

#[test]
fn anonymous_principal_is_the_single_byte_4() {
    let a = anonymous_user();
    assert_eq!(a.to_bytes(), vec![4u8]);
    assert!(a.is_anonymous());
    assert!(!UserId::from_bytes(&[1, 2, 3]).is_anonymous());
}

#[test]
fn principal_bytes_round_trip() {
    let bytes = vec![0u8, 17, 200, 255, 4];
    let u = UserId::from_bytes(&bytes);
    assert_eq!(u.to_bytes(), bytes);
    assert!(u.same(&UserId::from_bytes(&bytes)));
    assert!(!u.same(&UserId::from_bytes(&[0, 17])));
}
