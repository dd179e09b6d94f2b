use bandmix::discovery::{
    current, discovery_load_album_urls_task, expander_pace, fetcher_pace, discovery_load_albums_job, discovery_load_tracks_job,
    discovery_page_urls_job, get_entry, mark_current_track, next, next_album_url, previous,
    register_worker, start, stop, worker_count, Discovery, Lookup, Paginator, TracksStep, UrlTake,
    UrlsStep,
};
use bandmix::history::ListenHistory;
use bandmix::index::Admission;
use bandmix::models::{Album, Track, TrackList};
use bandmix::registry::Inserted;

fn track(album: u32, id: u32, name: &str) -> Track {
    Track {
        id,
        num: 1,
        name: name.to_string(),
        url: format!("https://stream.example/{}", id),
        album_id: album,
    }
}

fn album(id: u32, name: &str, tracks: Vec<Track>) -> Album {
    let mut list = TrackList::new();
    for t in tracks {
        list.insert(t);
    }
    Album {
        id,
        artist: "Artist".to_string(),
        name: name.to_string(),
        url: format!("https://a.bandcamp.com/album/{}", name),
        release_date: "2020".to_string(),
        featured_track_num: None,
        tracks: list,
        tags: None,
        album_art_url: Some("https://art.example/a.jpg".to_string()),
        artist_art_url: None,
    }
}

fn page(slugs: &[&str]) -> String {
    let items: Vec<String> = slugs
        .iter()
        .map(|s| {
            format!(
                "{{\"type\":\"a\",\"url_hints\":{{\"subdomain\":\"artist\",\"slug\":\"{}\"}}}}",
                s
            )
        })
        .collect();
    format!("{{\"items\":[{}]}}", items.join(","))
}

/// Runs the pipeline until the page is through: queues the addresses, hands
/// the fetcher the albums in order and lets the expander take each.
fn feed(state: &mut Discovery, pager: &mut Paginator, albums: Vec<Album>) {
    let slugs: Vec<String> = albums.iter().map(|a| a.name.clone()).collect();
    let refs: Vec<&str> = slugs.iter().map(|s| s.as_str()).collect();
    match discovery_page_urls_job(state, pager) {
        UrlsStep::Request(_) => {}
        other => panic!("expected a request, got {:?}", other),
    }
    discovery_load_album_urls_task(pager, Some(page(&refs).as_str()));
    for a in albums {
        assert!(matches!(discovery_page_urls_job(state, pager), UrlsStep::Queued));
        let url = match next_album_url(state) {
            UrlTake::Fetch(url) => url,
            other => panic!("expected an address, got {:?}", other),
        };
        assert_eq!(url, format!("https://artist.bandcamp.com/album/{}", a.name));
        discovery_load_albums_job(state, Some(a));
        discovery_load_tracks_job(state);
    }
}

fn name_of(found: Lookup) -> String {
    match found {
        Lookup::Found(e) => e.name,
        other => panic!("expected an entry, got {:?}", other),
    }
}

#[test]
fn one_album_two_tracks_then_wait() {
    let mut state = Discovery::new(ListenHistory::new());
    let mut pager = start(&mut state, None, None, None, None).expect("started");
    feed(
        &mut state,
        &mut pager,
        vec![album(1, "a1", vec![track(1, 11, "T1"), track(1, 12, "T2")])],
    );
    assert_eq!(state.filtered_cap(), 1);
    assert_eq!(state.filtered_len(), 2);
    assert_eq!(name_of(current(&state)), "T1");
    assert_eq!(name_of(next(&mut state)), "T2");
    assert_eq!(state.cursor(), 1);
    assert!(matches!(next(&mut state), Lookup::Wait));
    assert_eq!(state.cursor(), 1);
}

#[test]
fn heard_track_is_never_reached() {
    let mut history = ListenHistory::new();
    history.mark_track(12);
    let mut state = Discovery::new(history);
    let mut pager = start(&mut state, None, None, None, None).expect("started");
    feed(
        &mut state,
        &mut pager,
        vec![album(1, "a1", vec![track(1, 11, "T1"), track(1, 12, "T2")])],
    );
    assert_eq!(state.master_len(), 2);
    assert_eq!(state.filtered_len(), 1);
    assert_eq!(name_of(current(&state)), "T1");
    assert!(matches!(next(&mut state), Lookup::Wait));
    assert_eq!(state.cursor(), 0);
    assert_eq!(name_of(current(&state)), "T1");
}

#[test]
fn heard_album_is_dropped() {
    let mut history = ListenHistory::new();
    history.mark_album(1);
    let mut state = Discovery::new(history);
    let _pager = start(&mut state, None, None, None, None).expect("started");
    let step = discovery_load_albums_job(
        &mut state,
        Some(album(1, "a1", vec![track(1, 11, "T1")])),
    );
    assert_eq!(step.stored, Some(Inserted::Heard));
    assert!(!step.queued);
    assert!(!state.registry().contains(1));
    assert_eq!(state.registry().len(), 0);
    assert!(matches!(discovery_load_tracks_job(&mut state), TracksStep::Idle));
    assert_eq!(state.filtered_cap(), 0);
    assert_eq!(state.filtered_len(), 0);
    assert!(matches!(current(&state), Lookup::Wait));
}

#[test]
fn albums_close_when_their_last_track_is_marked() {
    let mut state = Discovery::new(ListenHistory::new());
    let mut pager = start(&mut state, None, None, None, None).expect("started");
    feed(
        &mut state,
        &mut pager,
        vec![
            album(1, "a1", vec![track(1, 11, "T1")]),
            album(2, "a2", vec![track(2, 22, "T2"), track(2, 23, "T3")]),
        ],
    );
    assert_eq!(mark_current_track(&mut state), Some(()));
    assert!(state.history().contains_album(1));
    assert_eq!(name_of(next(&mut state)), "T2");
    assert_eq!(mark_current_track(&mut state), Some(()));
    assert!(!state.history().contains_album(2));
    assert_eq!(name_of(next(&mut state)), "T3");
    assert_eq!(mark_current_track(&mut state), Some(()));
    assert!(state.history().contains_album(1));
    assert!(state.history().contains_album(2));
    assert!(state.history().contains_track(11));
    assert!(state.history().contains_track(22));
    assert!(state.history().contains_track(23));
}

#[test]
fn second_start_spawns_nothing() {
    let mut state = Discovery::new(ListenHistory::new());
    assert!(start(&mut state, None, None, None, None).is_some());
    assert!(register_worker(&mut state));
    assert!(register_worker(&mut state));
    assert!(register_worker(&mut state));
    assert!(start(&mut state, None, None, None, None).is_none());
    assert!(state.is_running());
    assert_eq!(worker_count(&state), 3);
    assert!(!register_worker(&mut state));
    assert_eq!(worker_count(&state), 3);
}

#[test]
fn stop_ends_every_stage() {
    let mut state = Discovery::new(ListenHistory::new());
    let mut pager = start(&mut state, None, None, None, None).expect("started");
    for _ in 0..3 {
        register_worker(&mut state);
    }
    discovery_load_albums_job(&mut state, Some(album(1, "a1", vec![track(1, 11, "T1")])));
    assert_eq!(stop(&mut state), 3);
    assert!(!state.is_running());
    assert_eq!(worker_count(&state), 0);
    assert!(matches!(discovery_load_tracks_job(&mut state), TracksStep::Stop));
    assert!(matches!(next_album_url(&mut state), UrlTake::Stop));
    assert!(matches!(discovery_page_urls_job(&mut state, &mut pager), UrlsStep::Stop));
    let step = discovery_load_albums_job(&mut state, None);
    assert_eq!(step.pace.rest_ms, 0);
    assert_eq!(step.pace.poll_ms, 0);
    assert_eq!(stop(&mut state), 0);
}

#[test]
fn fetcher_rests_only_after_it_queued_an_album() {
    let mut state = Discovery::new(ListenHistory::new());
    let _pager = start(&mut state, None, None, None, None).expect("started");
    discovery_load_albums_job(&mut state, Some(album(1, "a1", vec![track(1, 11, "T1")])));
    let queued = discovery_load_albums_job(&mut state, Some(album(2, "a2", vec![track(2, 21, "T")])));
    assert!(queued.queued);
    assert_eq!(queued.pace.rest_ms, 2500);
    let failed = discovery_load_albums_job(&mut state, None);
    assert_eq!(failed.stored, None);
    assert_eq!((failed.pace.rest_ms, failed.pace.poll_ms), (0, 0));
    assert_eq!(fetcher_pace(&state).rest_ms, 0);
}

#[test]
fn stop_keeps_index_and_cursor_for_a_restart() {
    let mut state = Discovery::new(ListenHistory::new());
    let mut pager = start(&mut state, None, None, None, None).expect("started");
    feed(
        &mut state,
        &mut pager,
        vec![album(1, "a1", vec![track(1, 11, "T1"), track(1, 12, "T2")])],
    );
    next(&mut state);
    stop(&mut state);
    assert_eq!(state.cursor(), 1);
    assert_eq!(state.filtered_len(), 2);
    assert!(start(&mut state, None, None, None, None).is_some());
    assert_eq!(name_of(current(&state)), "T2");
}

#[test]
fn previous_at_zero_stays_at_zero() {
    let mut state = Discovery::new(ListenHistory::new());
    let mut pager = start(&mut state, None, None, None, None).expect("started");
    assert!(matches!(previous(&mut state), Lookup::Wait));
    feed(
        &mut state,
        &mut pager,
        vec![album(1, "a1", vec![track(1, 11, "T1"), track(1, 12, "T2")])],
    );
    assert_eq!(name_of(previous(&mut state)), "T1");
    assert_eq!(state.cursor(), 0);
    assert_eq!(name_of(next(&mut state)), "T2");
    assert_eq!(name_of(previous(&mut state)), "T1");
    assert_eq!(state.cursor(), 0);
}

#[test]
fn entry_is_built_from_album_and_track() {
    let mut state = Discovery::new(ListenHistory::new());
    let mut pager = start(&mut state, None, None, None, None).expect("started");
    feed(&mut state, &mut pager, vec![album(7, "seven", vec![track(7, 70, "Song")])]);
    let entry = get_entry(&state, 0).found().expect("entry");
    assert_eq!(entry.name, "Song");
    assert_eq!(entry.artist, "Artist");
    assert_eq!(entry.album_name, "seven");
    assert_eq!(entry.album_art_url, Some("https://art.example/a.jpg".to_string()));
    assert_eq!(entry.url, "https://stream.example/70");
    assert!(entry.same_as(&entry.clone()));
    assert!(matches!(get_entry(&state, 1), Lookup::Wait));
}

#[test]
fn marking_twice_changes_nothing_more() {
    let mut state = Discovery::new(ListenHistory::new());
    let mut pager = start(&mut state, None, None, None, None).expect("started");
    feed(
        &mut state,
        &mut pager,
        vec![album(1, "a1", vec![track(1, 11, "T1"), track(1, 12, "T2")])],
    );
    assert_eq!(mark_current_track(&mut state), Some(()));
    let tracks = state.history().heard_track_count();
    let albums = state.history().heard_album_count();
    let bytes = state.history().to_bytes().len();
    assert_eq!(mark_current_track(&mut state), Some(()));
    assert_eq!(state.history().heard_track_count(), tracks);
    assert_eq!(state.history().heard_album_count(), albums);
    assert_eq!(state.history().to_bytes().len(), bytes);
    assert_eq!(tracks, 1);
    assert_eq!(albums, 0);
    assert_eq!(state.cursor(), 0);
}

#[test]
fn marking_without_a_track_gives_none() {
    let mut state = Discovery::new(ListenHistory::new());
    assert_eq!(mark_current_track(&mut state), None);
    assert_eq!(state.history().heard_track_count(), 0);
}

#[test]
fn album_with_every_track_heard_goes_into_the_history() {
    let mut history = ListenHistory::new();
    history.mark_track(11);
    history.mark_track(12);
    let mut state = Discovery::new(history);
    let _pager = start(&mut state, None, None, None, None).expect("started");
    discovery_load_albums_job(
        &mut state,
        Some(album(1, "a1", vec![track(1, 11, "T1"), track(1, 12, "T2")])),
    );
    match discovery_load_tracks_job(&mut state) {
        TracksStep::Expanded(e) => {
            assert_eq!(e.album, 1);
            assert_eq!(e.heard, 2);
            assert!(e.whole);
            assert_eq!(e.outcomes.len(), 2);
            assert!(e.outcomes.iter().all(|o| matches!(o, Admission::Hidden { .. })));
        }
        other => panic!("expected an expansion, got {:?}", other),
    }
    assert!(state.history().contains_album(1));
    assert_eq!(state.master_len(), 2);
    assert_eq!(state.filtered_len(), 0);
}

#[test]
fn listed_tracks_get_consecutive_positions() {
    let mut state = Discovery::new(ListenHistory::new());
    let _pager = start(&mut state, None, None, None, None).expect("started");
    discovery_load_albums_job(
        &mut state,
        Some(album(1, "a1", vec![track(1, 11, "T1"), track(1, 12, "T2"), track(1, 13, "T3")])),
    );
    match discovery_load_tracks_job(&mut state) {
        TracksStep::Expanded(e) => {
            let positions: Vec<usize> = e
                .outcomes
                .iter()
                .map(|o| match o {
                    Admission::Listed { position, .. } => *position,
                    other => panic!("expected a listed track, got {:?}", other),
                })
                .collect();
            assert_eq!(positions, vec![0, 1, 2]);
            assert_eq!(e.heard, 0);
            assert!(!e.whole);
        }
        other => panic!("expected an expansion, got {:?}", other),
    }
    assert_eq!(state.filtered_cap(), 2);
}

#[test]
fn unplayable_tracks_stay_out_of_the_registry() {
    let mut state = Discovery::new(ListenHistory::new());
    let _pager = start(&mut state, None, None, None, None).expect("started");
    let mut silent = track(1, 12, "T2");
    silent.url = String::new();
    let mut nameless = track(1, 13, "");
    nameless.name = String::new();
    let step = discovery_load_albums_job(
        &mut state,
        Some(album(1, "a1", vec![track(1, 11, "T1"), silent, nameless, track(1, 14, "T4")])),
    );
    assert_eq!(step.stored, Some(Inserted::Stored));
    let stored = state.registry().get(1).expect("stored");
    assert_eq!(stored.tracks.len(), 2);
    assert_eq!(stored.tracks.at(0).id, 11);
    assert_eq!(stored.tracks.at(1).id, 14);
    discovery_load_tracks_job(&mut state);
    assert_eq!(state.master_len(), 2);
    assert_eq!(state.filtered_len(), 2);
    assert_eq!(mark_current_track(&mut state), Some(()));
    next(&mut state);
    assert_eq!(mark_current_track(&mut state), Some(()));
    assert!(state.history().contains_album(1));
}

#[test]
fn colliding_album_keeps_the_first_and_is_queued_again() {
    let mut state = Discovery::new(ListenHistory::new());
    let _pager = start(&mut state, None, None, None, None).expect("started");
    let first = discovery_load_albums_job(
        &mut state,
        Some(album(1, "first", vec![track(1, 11, "T1")])),
    );
    assert_eq!(first.stored, Some(Inserted::Stored));
    assert!(first.queued);
    let second = discovery_load_albums_job(
        &mut state,
        Some(album(1, "second", vec![track(1, 99, "T9")])),
    );
    assert_eq!(second.stored, Some(Inserted::Collision));
    assert!(second.queued);
    assert_eq!(state.registry().get(1).expect("stored").name, "first");
    assert_eq!(state.registry().len(), 1);
}

#[test]
fn album_queue_holds_four_and_paces_the_fetcher() {
    let mut state = Discovery::new(ListenHistory::new());
    let _pager = start(&mut state, None, None, None, None).expect("started");
    let mut steps = Vec::new();
    for id in 1..=5u32 {
        steps.push(discovery_load_albums_job(
            &mut state,
            Some(album(id, "a", vec![track(id, id * 10, "T")])),
        ));
    }
    assert!(steps[0].queued);
    assert_eq!((steps[0].pace.rest_ms, steps[0].pace.poll_ms), (0, 0));
    assert!(steps[1].queued);
    assert_eq!((steps[1].pace.rest_ms, steps[1].pace.poll_ms), (2500, 0));
    assert!(steps[3].queued);
    assert_eq!((steps[3].pace.rest_ms, steps[3].pace.poll_ms), (2500, 500));
    assert_eq!(steps[4].stored, Some(Inserted::Stored));
    assert!(!steps[4].queued);
    assert_eq!(fetcher_pace(&state).poll_ms, 500);
    for expected in 1..=4u32 {
        match discovery_load_tracks_job(&mut state) {
            TracksStep::Expanded(e) => assert_eq!(e.album, expected),
            other => panic!("expected an expansion, got {:?}", other),
        }
    }
    assert!(matches!(discovery_load_tracks_job(&mut state), TracksStep::Idle));
}

#[test]
fn url_queue_holds_thirty_two_in_order() {
    let mut state = Discovery::new(ListenHistory::new());
    let mut pager = start(&mut state, None, None, None, None).expect("started");
    let slugs: Vec<String> = (0..40).map(|i| format!("s{}", i)).collect();
    let refs: Vec<&str> = slugs.iter().map(|s| s.as_str()).collect();
    discovery_load_album_urls_task(&mut pager, Some(page(&refs).as_str()));
    assert_eq!(pager.page(), 1);
    assert_eq!(pager.pending_len(), 40);
    for _ in 0..32 {
        assert!(matches!(discovery_page_urls_job(&mut state, &mut pager), UrlsStep::Queued));
    }
    assert!(matches!(discovery_page_urls_job(&mut state, &mut pager), UrlsStep::Wait));
    assert_eq!(pager.pending_len(), 8);
    for i in 0..32 {
        match next_album_url(&mut state) {
            UrlTake::Fetch(url) => {
                assert_eq!(url, format!("https://artist.bandcamp.com/album/s{}", i))
            }
            other => panic!("expected an address, got {:?}", other),
        }
    }
    assert!(matches!(next_album_url(&mut state), UrlTake::Idle));
    for _ in 0..8 {
        assert!(matches!(discovery_page_urls_job(&mut state, &mut pager), UrlsStep::Queued));
    }
    match discovery_page_urls_job(&mut state, &mut pager) {
        UrlsStep::Request(address) => assert_eq!(
            address,
            "https://bandcamp.com/api/discover/3/get_web?g=all&s=top&p=1&gn=0&f=all&w=0"
        ),
        other => panic!("expected a request, got {:?}", other),
    }
}

#[test]
fn failed_page_turns_to_the_next_page() {
    let mut pager = Paginator::new(bandmix::api::Function::get_web(0, None, None, None, None));
    discovery_load_album_urls_task(&mut pager, None);
    assert_eq!(pager.page(), 1);
    assert_eq!(pager.pending_len(), 0);
    assert_eq!(pager.function().parameter("p"), Some("1"));
    discovery_load_album_urls_task(&mut pager, Some("{\"items\":[]}"));
    assert_eq!(pager.page(), 2);
    assert_eq!(pager.function().parameter("p"), Some("2"));
}

#[test]
fn expander_rests_near_the_end_and_polls_far_ahead() {
    let mut state = Discovery::new(ListenHistory::new());
    let _pager = start(&mut state, None, None, None, None).expect("started");
    let many = |album_id: u32, from: u32, n: u32| {
        album(album_id, "a", (0..n).map(|i| track(album_id, from + i, "T")).collect())
    };
    discovery_load_albums_job(&mut state, Some(many(1, 100, 9)));
    match discovery_load_tracks_job(&mut state) {
        TracksStep::Expanded(e) => assert_eq!((e.pace.rest_ms, e.pace.poll_ms), (2500, 0)),
        other => panic!("expected an expansion, got {:?}", other),
    }
    discovery_load_albums_job(&mut state, Some(many(2, 200, 1)));
    match discovery_load_tracks_job(&mut state) {
        TracksStep::Expanded(e) => assert_eq!((e.pace.rest_ms, e.pace.poll_ms), (0, 0)),
        other => panic!("expected an expansion, got {:?}", other),
    }
    discovery_load_albums_job(&mut state, Some(many(3, 300, 24)));
    match discovery_load_tracks_job(&mut state) {
        TracksStep::Expanded(e) => assert_eq!((e.pace.rest_ms, e.pace.poll_ms), (0, 500)),
        other => panic!("expected an expansion, got {:?}", other),
    }
    assert_eq!(state.filtered_cap(), 33);
    next(&mut state);
    assert_eq!(expander_pace(&state).poll_ms, 0);
}
