use rwt::cache::Cache;

#[test]
fn new_cache_is_empty() {
    let c: Cache<u8> = Cache::new(15);
    assert_eq!(c.length(), 0);
    assert_eq!(c.get_data_pointer().len(), 0);
    assert_eq!(c.last_offset, 0);
}

#[test]
fn add_then_get_returns_item() {
    let mut c: Cache<u32> = Cache::new(1);
    c.add(7);
    c.add(9);
    assert_eq!(c.length(), 2);
    assert_eq!(*c.get(0), 7);
    assert_eq!(*c.get(1), 9);
}

#[test]
fn clear_empties_well_formed_cache() {
    let mut c: Cache<u32> = Cache::new(1);
    c.add(1);
    c.add(2);
    c.add(3);
    c.clear();
    assert_eq!(c.length(), 0);
    assert_eq!(c.get_data_pointer().len(), 0);
}

#[test]
fn clear_drops_only_recorded_items() {
    let mut c: Cache<u32> = Cache::new(1);
    c.add(1);
    c.get_mut_data_pointer().push(2);
    c.get_mut_data_pointer().push(3);
    // two items were pushed behind the cache's back: only one is recorded
    assert_eq!(c.length(), 1);
    c.clear();
    assert_eq!(c.length(), 0);
    assert_eq!(c.get_data_pointer(), &vec![1, 2]);
}

#[test]
fn set_replaces_items() {
    let mut c: Cache<u32> = Cache::new(5);
    c.add(42);
    c.set(vec![4, 5, 6]);
    assert_eq!(c.length(), 3);
    assert_eq!(c.get_data_pointer(), &vec![4, 5, 6]);
    assert_eq!(*c.get(2), 6);
    assert!(!c.needs_refresh_at(0));
}

#[test]
fn set_length_counts_items() {
    let mut c: Cache<u8> = Cache::new(1);
    c.get_mut_data_pointer().extend_from_slice(b"abc");
    assert_eq!(c.length(), 0);
    c.set_length();
    assert_eq!(c.length(), 3);
    assert_eq!(*c.get(1), b'b');
}

#[test]
fn outdated_once_age_limit_passed() {
    let c: Cache<u8> = Cache::new(1);
    // born now: at time 0 it is not outdated, at the far future it is
    assert!(!c.is_outdated_at(0));
    assert!(!c.is_outdated_at(i128::MIN));
    assert!(c.is_outdated_at(i128::MAX));
    assert!(!c.is_outdated());
}

#[test]
fn zero_age_limit_is_outdated_at_once() {
    let c: Cache<u8> = Cache::new(0);
    assert!(c.is_outdated());
}

#[test]
fn empty_cache_needs_refresh() {
    let c: Cache<u8> = Cache::new(60);
    assert!(c.needs_refresh());
    assert!(c.needs_refresh_at(0));
    let mut d: Cache<u8> = Cache::new(60);
    d.add(1);
    assert!(!d.needs_refresh());
    assert!(d.needs_refresh_at(i128::MAX));
}

#[test]
fn outdated_stays_outdated() {
    let c: Cache<u8> = Cache::new(2);
    let later = (rwt::cache::MAX_CLOCK_NANOS + 200 * rwt::cache::NANOS_PER_MINUTE) as i128;
    assert!(c.is_outdated_at(later));
    assert!(c.is_outdated_at(later + 1));
}
