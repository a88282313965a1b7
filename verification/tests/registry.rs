use shard::registry::{civil_from_days, id_from, iso_from_secs, iso_now, socket_path, Entry, EntryStatus, Registry};

#[test]
fn iso_now_is_rfc3339_utc() {
    let stamp = iso_now();
    assert_eq!(stamp.len(), 20);
    assert!(stamp.ends_with('Z'));
    assert_eq!(&stamp[10..11], "T");
}

#[test]
fn civil_dates_round_trip_known_epochs() {
    assert_eq!(civil_from_days(0), (1970, 1, 1));
    assert_eq!(civil_from_days(20_641), (2026, 7, 7));
}

#[test]
fn civil_dates_handle_leap_days_and_eras() {
    assert_eq!(civil_from_days(-1), (1969, 12, 31));
    assert_eq!(civil_from_days(11_016), (2000, 2, 29));
    assert_eq!(civil_from_days(11_017), (2000, 3, 1));
    assert_eq!(civil_from_days(-719_468), (0, 3, 1));
    assert_eq!(civil_from_days(47_541), (2100, 3, 1));
}

#[test]
fn timestamps_format_date_and_time_of_day() {
    assert_eq!(iso_from_secs(0), "1970-01-01T00:00:00Z");
    assert_eq!(iso_from_secs(1_783_428_245), "2026-07-07T12:44:05Z");
}

fn entry(id: &str, url: &str, status: EntryStatus) -> Entry {
    Entry {
        id: id.into(),
        url: url.into(),
        dest: format!("/tmp/{id}.bin"),
        final_dest: None,
        status,
        pid: 1234,
        started_at: iso_now(),
        updated_at: iso_now(),
    }
}

#[test]
fn lookup_matches_by_id_and_url_and_ignores_stale_entries() {
    let mut registry = Registry::default();
    registry.entries.push(entry("old", "https://example.com/f.bin", EntryStatus::Cancelled));
    registry.entries.push(entry("new", "https://example.com/g.bin", EntryStatus::Downloading));
    assert_eq!(registry.by_id_or_url("new").unwrap().status, EntryStatus::Downloading);
    assert!(registry.by_id_or_url("https://example.com/f.bin").is_some());
    assert_eq!(registry.active().len(), 1);
}

#[test]
fn newest_matching_entry_wins() {
    let mut registry = Registry::default();
    registry.entries.push(entry("a", "https://example.com/x", EntryStatus::Failed));
    registry.entries.push(entry("b", "https://example.com/x", EntryStatus::Completed));
    assert_eq!(registry.by_id_or_url("https://example.com/x").unwrap().id, "b");
    assert!(registry.by_id_or_url("zzz").is_none());
    assert!(registry.active().is_empty());
    assert_eq!(EntryStatus::Downloading.name(), "downloading");
}

#[test]
fn sockets_and_ids_have_fixed_shapes() {
    assert_eq!(socket_path("/data/shard", "1a2b"), "/data/shard/run/1a2b.sock");
    assert_eq!(id_from(255, 42), "ff-42");
    assert_eq!(id_from(0, 7), "0-7");
}
