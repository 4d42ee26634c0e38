use gameboy_core::states::{slot_from_slug, StateMeta, StateStore, AUTO_SLOT, FORMAT_VERSION, SAVE_SLOTS};

fn meta(slug: &str, slot: u32, saved_at: u64) -> StateMeta {
    StateMeta::new(
        String::from("/roms/game.gb"),
        String::from("GAME"),
        String::from("MBC1"),
        false,
        42,
        vec![1, 2, 3],
        slot,
        String::from(slug),
        saved_at,
    )
}

#[test]
fn slot_is_number_after_last_marker() {
    assert_eq!(slot_from_slug("0123456789abcdef_s2"), 2);
    assert_eq!(slot_from_slug("0123456789abcdef_s0"), 0);
    assert_eq!(slot_from_slug("a_s9_s3"), 3);
    assert_eq!(slot_from_slug("game_s+4"), 4);
}

#[test]
fn slot_defaults_to_automatic() {
    assert_eq!(slot_from_slug("no-marker"), AUTO_SLOT);
    assert_eq!(slot_from_slug("bad_sX"), AUTO_SLOT);
    assert_eq!(slot_from_slug("empty_s"), AUTO_SLOT);
    assert_eq!(slot_from_slug("big_s4294967296"), AUTO_SLOT);
    assert_eq!(slot_from_slug("max_s4294967295"), 4294967295);
    assert_eq!(slot_from_slug("marker_s1_then_text"), AUTO_SLOT);
    assert_eq!(slot_from_slug(""), AUTO_SLOT);
}

#[test]
fn new_meta_has_current_format() {
    let m = meta("abc_s1", 1, 10);
    assert_eq!(m.version, FORMAT_VERSION);
    assert_eq!(m.slug(), "abc_s1");
    assert_eq!(m.slot(), 1);
    assert_eq!(m.saved_at_unix, 10);
    assert_eq!(m.thumbnail, vec![1, 2, 3]);
}

#[test]
fn store_keeps_newest_first() {
    let mut store = StateStore::new();
    store.save(meta("a_s0", 0, 10));
    store.save(meta("b_s0", 0, 30));
    store.save(meta("c_s0", 0, 20));
    let order: Vec<&str> = store.entries().iter().map(|m| m.slug()).collect();
    assert_eq!(order, vec!["b_s0", "c_s0", "a_s0"]);
}

#[test]
fn equal_times_keep_arrival_order() {
    let mut store = StateStore::new();
    store.save(meta("a_s0", 0, 10));
    store.save(meta("b_s0", 0, 10));
    let order: Vec<&str> = store.entries().iter().map(|m| m.slug()).collect();
    assert_eq!(order, vec!["a_s0", "b_s0"]);
}

#[test]
fn save_replaces_same_slug_and_find_returns_it() {
    let mut store = StateStore::new();
    store.save(meta("a_s1", 1, 10));
    store.save(meta("b_s0", 0, 15));
    store.save(meta("a_s1", 1, 20));
    assert_eq!(store.entries().len(), 2);
    let found = store.find_slot(&String::from("a_s1")).expect("saved state");
    assert_eq!(found.saved_at_unix, 20);
    let other = store.find_slot(&String::from("b_s0")).expect("other state");
    assert_eq!(other.saved_at_unix, 15);
}

#[test]
fn remove_forgets_only_that_slug() {
    let mut store = StateStore::new();
    store.save(meta("a_s0", 0, 10));
    store.save(meta("b_s0", 0, 20));
    store.remove(&String::from("a_s0"));
    assert!(store.find(&String::from("a_s0")).is_none());
    assert_eq!(store.find(&String::from("b_s0")).map(|m| m.saved_at_unix), Some(20));
    assert_eq!(store.entries().len(), 1);
}

#[test]
fn auto_entries_lists_slot_zero_only() {
    let mut store = StateStore::new();
    store.save(meta("a_s0", 0, 10));
    store.save(meta("a_s1", 1, 30));
    store.save(meta("b_s0", 0, 20));
    let auto: Vec<&str> = store.auto_entries().iter().map(|m| m.slug()).collect();
    assert_eq!(auto, vec!["b_s0", "a_s0"]);
}

#[test]
fn slots_for_reports_each_numbered_slot() {
    let mut store = StateStore::new();
    store.save(meta("g_s1", 1, 10));
    store.save(meta("g_s3", 3, 20));
    let slugs = [
        String::from("g_s1"),
        String::from("g_s2"),
        String::from("g_s3"),
        String::from("g_s4"),
    ];
    let slots = store.slots_for(&slugs);
    assert_eq!(slots.len(), SAVE_SLOTS);
    assert_eq!(slots[0].map(|m| m.saved_at_unix), Some(10));
    assert!(slots[1].is_none());
    assert_eq!(slots[2].map(|m| m.saved_at_unix), Some(20));
    assert!(slots[3].is_none());
}

#[test]
fn loaded_state_takes_slot_from_its_name() {
    let mut store = StateStore::new();
    let read_back = meta("ignored", 0, 5);
    assert!(store.insert_loaded(read_back, String::from("file_s2")));
    let found = store.find_slot(&String::from("file_s2")).expect("loaded state");
    assert_eq!(found.slot(), 2);
    assert_eq!(found.title, "GAME");
}

#[test]
fn loaded_state_of_other_format_is_skipped() {
    let mut store = StateStore::new();
    let mut old_format = meta("x_s0", 0, 5);
    old_format.version = FORMAT_VERSION + 1;
    assert!(!store.insert_loaded(old_format, String::from("x_s0")));
    assert!(store.entries().is_empty());
}

#[test]
fn slug_names_hash_and_slot() {
    use_slug();
}

fn use_slug() {
    let slug = gameboy_core::states::slug_for_hash(0x0123_4567_89ab_cdef, 3);
    assert_eq!(slug, "0123456789abcdef_s3");
    assert_eq!(slot_from_slug(&slug), 3);
    let auto = gameboy_core::states::slug_for_hash(0xff, 0);
    assert_eq!(auto, "00000000000000ff_s0");
    assert_eq!(slot_from_slug(&auto), 0);
    let big = gameboy_core::states::slug_for_hash(u64::MAX, u32::MAX);
    assert_eq!(slot_from_slug(&big), u32::MAX);
}
