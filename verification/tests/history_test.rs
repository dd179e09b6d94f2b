use bandmix::history::ListenHistory;

fn le32(x: u32) -> Vec<u8> {
    x.to_le_bytes().to_vec()
}

fn le64(x: u64) -> Vec<u8> {
    x.to_le_bytes().to_vec()
}

#[test]
fn empty_history_knows_nothing() {
    let h = ListenHistory::new();
    assert!(!h.contains_track(0));
    assert!(!h.contains_album(0));
    assert_eq!(h.cursor(), 0);
    assert_eq!(h.heard_track_count(), 0);
    assert_eq!(h.heard_album_count(), 0);
}

#[test]
fn marking_is_remembered_and_says_whether_it_was_new() {
    let mut h = ListenHistory::new();
    assert!(h.mark_track(5));
    assert!(!h.mark_track(5));
    assert!(h.mark_track(0));
    assert!(h.mark_album(5));
    assert!(!h.mark_album(5));
    assert!(h.contains_track(5));
    assert!(h.contains_track(0));
    assert!(!h.contains_track(6));
    assert!(h.contains_album(5));
    assert!(!h.contains_album(0));
    assert_eq!(h.heard_track_count(), 2);
    assert_eq!(h.heard_album_count(), 1);
}

#[test]
fn empty_history_is_written_in_twenty_eight_bytes() {
    let bytes = ListenHistory::new().to_bytes();
    let mut expected = le32(1);
    expected.extend(le64(0));
    expected.extend(le64(0));
    expected.extend(le64(0));
    assert_eq!(bytes, expected);
}

#[test]
fn history_round_trip() {
    let mut h = ListenHistory::new();
    for id in [7u32, 0, 4_000_000_000, 19] {
        h.mark_track(id);
    }
    h.mark_album(3);
    h.mark_album(u32::MAX);
    h.set_cursor(42);
    let bytes = h.to_bytes();
    assert_eq!(bytes.len(), 20 + 4 * 4 + 8 + 4 * 2);
    let back = ListenHistory::from_bytes(&bytes).expect("a record");
    assert_eq!(back.cursor(), 42);
    assert_eq!(back.heard_track_count(), 4);
    assert_eq!(back.heard_album_count(), 2);
    for id in [7u32, 0, 4_000_000_000, 19] {
        assert!(back.contains_track(id));
    }
    assert!(!back.contains_track(8));
    assert!(back.contains_album(3));
    assert!(back.contains_album(u32::MAX));
    assert!(!back.contains_album(7));
}

#[test]
fn record_without_albums_loads_with_no_album_heard() {
    let mut bytes = le32(0);
    bytes.extend(le64(9));
    bytes.extend(le64(2));
    bytes.extend(le32(100));
    bytes.extend(le32(200));
    let h = ListenHistory::from_bytes(&bytes).expect("a record");
    assert_eq!(h.cursor(), 9);
    assert!(h.contains_track(100));
    assert!(h.contains_track(200));
    assert_eq!(h.heard_track_count(), 2);
    assert_eq!(h.heard_album_count(), 0);
    let upgraded = h.to_bytes();
    assert_eq!(&upgraded[0..4], &le32(1)[..]);
    assert_eq!(upgraded.len(), 20 + 8 + 8);
}

#[test]
fn repeated_identifiers_in_a_record_count_once() {
    let mut bytes = le32(1);
    bytes.extend(le64(0));
    bytes.extend(le64(3));
    bytes.extend(le32(5));
    bytes.extend(le32(5));
    bytes.extend(le32(6));
    bytes.extend(le64(0));
    let h = ListenHistory::from_bytes(&bytes).expect("a record");
    assert_eq!(h.heard_track_count(), 2);
}

#[test]
fn what_is_no_record_is_refused() {
    assert!(ListenHistory::from_bytes(&[]).is_none());
    assert!(ListenHistory::from_bytes(&[1, 0, 0, 0]).is_none());
    let mut unknown_version = le32(2);
    unknown_version.extend(le64(0));
    unknown_version.extend(le64(0));
    unknown_version.extend(le64(0));
    assert!(ListenHistory::from_bytes(&unknown_version).is_none());
    let mut short = le32(1);
    short.extend(le64(0));
    short.extend(le64(2));
    short.extend(le32(1));
    assert!(ListenHistory::from_bytes(&short).is_none());
    let mut no_albums = le32(1);
    no_albums.extend(le64(0));
    no_albums.extend(le64(0));
    assert!(ListenHistory::from_bytes(&no_albums).is_none());
    let mut trailing = ListenHistory::new().to_bytes();
    trailing.push(0);
    assert!(ListenHistory::from_bytes(&trailing).is_none());
    let mut old_trailing = le32(0);
    old_trailing.extend(le64(0));
    old_trailing.extend(le64(0));
    old_trailing.push(7);
    assert!(ListenHistory::from_bytes(&old_trailing).is_none());
    let mut huge = le32(1);
    huge.extend(le64(0));
    huge.extend(le64(u64::MAX));
    assert!(ListenHistory::from_bytes(&huge).is_none());
}

#[test]
fn load_or_default_falls_back_to_empty() {
    assert_eq!(ListenHistory::load_or_default(None).heard_track_count(), 0);
    assert_eq!(ListenHistory::load_or_default(Some(&[1, 2, 3])).heard_track_count(), 0);
    let mut h = ListenHistory::new();
    h.mark_track(77);
    let bytes = h.to_bytes();
    let loaded = ListenHistory::load_or_default(Some(&bytes));
    assert!(loaded.contains_track(77));
    assert_eq!(ListenHistory::default().heard_album_count(), 0);
}
