use bandmix::models::{Track, TrackList};

fn track(id: u32, name: &str, url: &str) -> Track {
    Track { id, num: 1, name: name.to_string(), url: url.to_string(), album_id: 7 }
}

#[test]
fn track_is_valid_only_with_name_and_url() {
    assert!(track(1, "a", "u").valid());
    assert!(!track(1, "", "u").valid());
    assert!(!track(1, "a", "").valid());
    assert!(!Track::default().valid());
}

#[test]
fn track_list_keeps_insertion_order_and_replaces_in_place() {
    let mut list = TrackList::new();
    assert!(list.insert(track(5, "five", "u5")).is_none());
    assert!(list.insert(track(2, "two", "u2")).is_none());
    assert_eq!(list.len(), 2);
    assert_eq!(list.at(0).id, 5);
    assert_eq!(list.at(1).id, 2);
    let old = list.insert(track(5, "cinq", "u5b")).expect("replaced");
    assert_eq!(old.name, "five");
    assert_eq!(list.len(), 2);
    assert_eq!(list.at(0).name, "cinq");
    assert_eq!(list.find(2), Some(1));
    assert_eq!(list.find(9), None);
    assert!(list.contains(5));
    assert_eq!(list.get(2).map(|t| t.name.clone()), Some("two".to_string()));
}

fn album_of(tracks: Vec<Track>, featured: Option<i32>, url: &str) -> bandmix::models::Album {
    let mut list = TrackList::new();
    for t in tracks {
        list.insert(t);
    }
    bandmix::models::Album {
        id: 7,
        artist: "Artist".to_string(),
        name: "Name".to_string(),
        url: url.to_string(),
        release_date: String::new(),
        featured_track_num: featured,
        tracks: list,
        tags: None,
        album_art_url: None,
        artist_art_url: None,
    }
}

#[test]
fn track_text_is_name_and_id() {
    assert_eq!(track(5, "Song", "u").to_text(), "Song : 5");
    assert_eq!(Track::default().to_text(), " : 0");
}

#[test]
fn album_text_stars_the_featured_track() {
    let mut second = track(2, "T2", "u2");
    second.num = 2;
    let a = album_of(vec![track(1, "T1", "u1"), second], Some(2), "https://x.example/a");
    assert_eq!(a.to_text(), "Name : 7\nhttps://x.example/a\n Artist\n  T1 : 1\n* T2 : 2");
    let b = album_of(vec![track(1, "T1", "u1")], None, "");
    assert_eq!(b.to_text(), "Name : 7\n Artist\n  T1 : 1");
    assert_eq!(album_of(vec![], Some(1), "").to_text(), "Name : 7\n Artist");
}

#[test]
fn album_copy_and_ownership() {
    let a = album_of(vec![track(1, "T1", "u1"), track(2, "", "u2")], None, "");
    let copy = a.clone();
    assert_eq!(copy.to_text(), a.to_text());
    assert_eq!(copy.tracks.len(), 2);
    assert!(a.owns_its_tracks());
    let kept = a.retain_playable();
    assert_eq!(kept.tracks.len(), 1);
    assert_eq!(kept.tracks.at(0).id, 1);
    assert_eq!(kept.name, "Name");
    let mut foreign = track(3, "T3", "u3");
    foreign.album_id = 8;
    assert!(!album_of(vec![track(1, "T1", "u1"), foreign], None, "").owns_its_tracks());
    let d = bandmix::models::Album::default();
    assert_eq!(d.id, 0);
    assert!(d.tracks.is_empty());
    assert!(TrackList::default().is_empty());
}
