use mementic::codec::{DayUsage, StorableVecU64, MAX_LEN};

#[test]
fn storable_vec_roundtrip_small() {
    let v = StorableVecU64::new(vec![1, 2, 0xdead_beef_0102_0304]);
    let bytes = v.to_bytes();
    assert_eq!(bytes.len(), 4 + 8 * 3);
    assert_eq!(&bytes[0..4], &[3, 0, 0, 0]);
    assert_eq!(&bytes[20..28], &[4, 3, 2, 1, 0xef, 0xbe, 0xad, 0xde]);
    let back = StorableVecU64::from_bytes(&bytes);
    assert_eq!(back.0, vec![1, 2, 0xdead_beef_0102_0304]);
}

#[test]
fn storable_vec_keeps_at_most_max_len() {
    let items: Vec<u64> = (0..(MAX_LEN as u64 + 5)).collect();
    let bytes = StorableVecU64::new(items.clone()).into_bytes();
    assert_eq!(bytes.len(), StorableVecU64::byte_capacity_for(MAX_LEN));
    let back = StorableVecU64::from_bytes(&bytes);
    assert_eq!(back.0, items[..MAX_LEN].to_vec());
}

#[test]
fn storable_vec_short_input_is_empty() {
    assert!(StorableVecU64::from_bytes(&[1, 0, 0]).0.is_empty());
    assert!(StorableVecU64::from_bytes(&[]).0.is_empty());
}

#[test]
fn storable_vec_truncated_input_reads_whole_items() {
    // declares 3 items but only holds 1 whole item and half of another
    let mut bytes = vec![3, 0, 0, 0];
    bytes.extend_from_slice(&7u64.to_le_bytes());
    bytes.extend_from_slice(&[1, 2, 3]);
    assert_eq!(StorableVecU64::from_bytes(&bytes).0, vec![7]);
}

#[test]
fn day_usage_roundtrip() {
    let u = DayUsage { day: 19_876, count: 2 };
    let b = u.to_bytes();
    assert_eq!(b.len(), 9);
    let back = DayUsage::from_bytes(&b);
    assert_eq!(back.day, 19_876);
    assert_eq!(back.count, 2);
}

#[test]
fn day_usage_wrong_length_is_zero() {
    let back = DayUsage::from_bytes(&[1, 2, 3]);
    assert_eq!(back.day, 0);
    assert_eq!(back.count, 0);
}
