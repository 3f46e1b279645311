use dprint_engine::communication::utils::{AtomicFlag, IdGenerator, RcIdStore};

#[test]
fn flag_is_raised_once() {
    let flag = AtomicFlag::default();
    assert!(!flag.is_raised());
    assert!(flag.raise());
    assert!(flag.is_raised());
    assert!(!flag.raise());
    assert!(flag.is_raised());
}

#[test]
fn ids_count_up_from_zero() {
    let mut generator = IdGenerator::default();
    assert_eq!(generator.next(), 0);
    assert_eq!(generator.next(), 1);
    assert_eq!(generator.next(), 2);
}

#[test]
fn store_keeps_and_gives_back_by_id() {
    let mut store: RcIdStore<String> = RcIdStore::new();
    store.store(7, "seven".to_string());
    store.store(8, "eight".to_string());
    assert_eq!(store.get_cloned(7), Some("seven".to_string()));
    assert_eq!(store.get_cloned(9), None);
    assert_eq!(store.take(7), Some("seven".to_string()));
    assert_eq!(store.take(7), None);
    assert_eq!(store.get_cloned(7), None);
    assert_eq!(store.get_cloned(8), Some("eight".to_string()));
}

#[test]
fn store_replaces_what_was_kept_under_an_id() {
    let mut store: RcIdStore<u8> = RcIdStore::default();
    store.store(1, 10);
    store.store(1, 11);
    assert_eq!(store.take(1), Some(11));
    assert_eq!(store.take(1), None);
}

#[test]
fn take_all_empties_the_store() {
    let mut store: RcIdStore<u8> = RcIdStore::new();
    store.store(1, 10);
    store.store(2, 20);
    let all = store.take_all();
    assert_eq!(all.len(), 2);
    assert_eq!(all.get(&1), Some(&10));
    assert_eq!(all.get(&2), Some(&20));
    assert_eq!(store.get_cloned(1), None);
    assert!(store.take_all().is_empty());
}

#[test]
fn only_the_raise_that_finds_the_flag_down_is_the_first() {
    assert!(AtomicFlag::is_first_raise(false));
    assert!(!AtomicFlag::is_first_raise(true));
}

#[test]
fn flag_is_raised_for_every_holder() {
    let flag = std::sync::Arc::new(AtomicFlag::default());
    let other = flag.clone();
    assert!(other.raise());
    assert!(flag.is_raised());
    assert!(!flag.raise());
}
