use x870e_lcd::catalog::{catalog_file_path, config_dir_from, thumbnails_dir, SlotCatalog, SlotEntry};

fn entry(slot: u8, title: &str, file: &str, timestamp: u64) -> SlotEntry {
    SlotEntry {
        slot,
        title: title.into(),
        original_filename: file.into(),
        timestamp,
        file_size_bytes: 5000,
        thumbnail_filename: format!("slot_{slot}.png"),
    }
}

#[test]
fn test_next_free_slot() {
    let mut catalog = SlotCatalog::default();
    assert_eq!(catalog.next_free_slot(64), Some(0));

    catalog.slots.insert(
        0,
        SlotEntry {
            slot: 0,
            title: "Test 0".into(),
            original_filename: "test0.png".into(),
            timestamp: 1000,
            file_size_bytes: 5000,
            thumbnail_filename: "slot_0.png".into(),
        },
    );
    assert_eq!(catalog.next_free_slot(64), Some(1));

    catalog.slots.insert(
        1,
        SlotEntry {
            slot: 1,
            title: "Test 1".into(),
            original_filename: "test1.png".into(),
            timestamp: 1001,
            file_size_bytes: 5000,
            thumbnail_filename: "slot_1.png".into(),
        },
    );
    assert_eq!(catalog.next_free_slot(64), Some(2));

    // When slot 0 is removed, slot 0 should be reallocated
    catalog.slots.remove(&0);
    assert_eq!(catalog.next_free_slot(64), Some(0));
}

#[test]
fn test_slot_entry_new_and_thumbnail_path() {
    let entry = SlotEntry::new(5, "my_wallpaper.png", 42000);
    assert_eq!(entry.slot, 5);
    assert_eq!(entry.title, "my_wallpaper");
    assert_eq!(entry.thumbnail_filename, "slot_5.png");
    assert_eq!(entry.file_size_bytes, 42000);

    let mut catalog = SlotCatalog::default();
    catalog.slots.insert(entry.slot, entry);

    let thumb = catalog.thumbnail_path("/home/user/.config/x870e-lcd", 5);
    assert!(thumb.ends_with("slot_5.png"));
}

#[test]
fn slot_entry_without_stem_is_titled_by_slot() {
    let entry = SlotEntry::new(7, "", 10);
    assert_eq!(entry.title, "Custom 7");
    assert_eq!(entry.original_filename, "");
    assert_eq!(entry.thumbnail_filename, "slot_7.png");
    let dotted = SlotEntry::new(2, "/tmp/pics/neon.final.jpg", 1);
    assert_eq!(dotted.title, "neon.final");
}

#[test]
fn config_paths_are_joined_under_the_config_dir() {
    assert_eq!(thumbnails_dir("/cfg/x870e-lcd"), "/cfg/x870e-lcd/thumbnails");
    assert_eq!(catalog_file_path("/cfg/x870e-lcd"), "/cfg/x870e-lcd/catalog.json");
    assert_eq!(thumbnails_dir("/cfg/x870e-lcd/"), "/cfg/x870e-lcd/thumbnails");
}

#[test]
fn thumbnail_path_uses_catalog_name_or_default() {
    let mut catalog = SlotCatalog::default();
    let mut e = entry(3, "ROG Neon", "neon.jpg", 1234567);
    e.thumbnail_filename = "custom_three.png".into();
    catalog.insert_entry(e);
    assert_eq!(catalog.thumbnail_path("/cfg", 3), "/cfg/thumbnails/custom_three.png");
    assert_eq!(catalog.thumbnail_path("/cfg", 4), "/cfg/thumbnails/slot_4.png");
}

#[test]
fn next_free_slot_respects_limit_and_cap() {
    let mut catalog = SlotCatalog::default();
    assert_eq!(catalog.next_free_slot(0), None);
    for s in 0..3u8 {
        catalog.insert_entry(entry(s, "t", "f.png", 1));
    }
    assert_eq!(catalog.next_free_slot(3), None);
    assert_eq!(catalog.next_free_slot(4), Some(3));
    let mut full = SlotCatalog::default();
    for s in 0..=255u8 {
        full.insert_entry(entry(s, "t", "f.png", 1));
    }
    assert_eq!(full.next_free_slot(1000), None);
    assert_eq!(full.occupied_count(), 256);
}

#[test]
fn freed_slot_is_reused_and_filled_slot_is_taken() {
    let mut catalog = SlotCatalog::default();
    for s in 0..5u8 {
        catalog.insert_entry(entry(s, "t", "f.png", 1));
    }
    let removed = catalog.remove_entry(2);
    assert_eq!(removed.map(|e| e.slot), Some(2));
    assert!(!catalog.is_occupied(2));
    assert_eq!(catalog.next_free_slot(256), Some(2));
    catalog.insert_entry(entry(2, "again", "g.png", 2));
    assert!(catalog.is_occupied(2));
    assert_eq!(catalog.next_free_slot(256), Some(5));
    assert!(catalog.remove_entry(42).is_none());
}

#[test]
fn insert_entry_returns_replaced_entry() {
    let mut catalog = SlotCatalog::default();
    assert!(catalog.insert_entry(entry(1, "first", "a.png", 1)).is_none());
    let old = catalog.insert_entry(entry(1, "second", "b.png", 2));
    assert_eq!(old.map(|e| e.title), Some("first".to_string()));
    assert_eq!(catalog.slots.get(&1).map(|e| e.title.clone()), Some("second".to_string()));
    assert_eq!(catalog.occupied_count(), 1);
}

#[test]
fn load_takes_stored_catalog_or_starts_empty() {
    let empty = SlotCatalog::load(None);
    assert_eq!(empty.occupied_count(), 0);

    let mut stored = SlotCatalog::default();
    stored.insert_entry(entry(9, "nine", "n.png", 9));
    let loaded = SlotCatalog::load(Some(stored));
    assert!(loaded.is_occupied(9));
    assert_eq!(loaded.occupied_count(), 1);

    let mut current = SlotCatalog::default();
    current.insert_entry(entry(1, "one", "o.png", 1));
    current.reload(None);
    assert!(current.is_occupied(1));
    current.reload(Some(SlotCatalog::default()));
    assert_eq!(current.occupied_count(), 0);
}

#[test]
fn config_dir_prefers_xdg_then_home_then_temp() {
    assert_eq!(config_dir_from(Some("/x/cfg"), Some("/home/u"), "/tmp"), "/x/cfg/x870e-lcd");
    assert_eq!(config_dir_from(Some("  "), Some("/home/u"), "/tmp"), "/home/u/.config/x870e-lcd");
    assert_eq!(config_dir_from(None, Some("/home/u/"), "/tmp"), "/home/u/.config/x870e-lcd");
    assert_eq!(config_dir_from(None, Some(""), "/tmp"), "/tmp/x870e-lcd");
    assert_eq!(config_dir_from(None, None, "/tmp/"), "/tmp/x870e-lcd");
}

#[test]
fn entry_titles_follow_std_file_stem() {
    for name in [
        "dir/photo.tar.gz", ".hidden", "a.", "dir/", "", "..", "x/.", "/", "./", "a//b.png//",
        "archive", "a/../", "noext.", "..b", "c/.d.e", "./x.y",
    ] {
        let expected = std::path::Path::new(name)
            .file_stem()
            .map(|s| s.to_string_lossy().to_string())
            .unwrap_or_else(|| "Custom 5".to_string());
        assert_eq!(SlotEntry::new(5, name, 1).title, expected, "{name:?}");
    }
}
