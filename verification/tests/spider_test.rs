use bandmix::spider::{
    find_track_url_by_name, get_album, resolve_url, scrape_by_application_ld_json,
    scrape_by_data_tralbum,
};

const LD: &str = r#"{
 "name":"All Hell &amp; More",
 "mainEntityOfPage":"https://x.bandcamp.com/album/all-hell",
 "datePublished":"19 Jul 2024",
 "image":"https://img.example/a.jpg",
 "keywords":[" rock ", "  ", "indie"],
 "byArtist":{"name":"Los &amp; Co","image":"https://img.example/artist.jpg"},
 "additionalProperty":[{"name":"featured_track_num","value":2}],
 "albumRelease":[
   {"additionalProperty":[{"name":"item_type","value":"t"},{"name":"item_id","value":1}]},
   {"additionalProperty":[{"name":"item_type","value":"a"},{"name":"item_id","value":4242}]}],
 "track":{"itemListElement":[
   {"position":1,"item":{"name":"One/Two","additionalProperty":[{"name":"track_id","value":11},{"name":"file_mp3-128","value":"https://s.example/1?a=1&amp;b=2"}]}},
   {"position":2,"item":{"name":"Second","additionalProperty":[{"name":"track_id","value":12}]}},
   {"position":3,"item":{"name":"Third","additionalProperty":[{"name":"track_id","value":13}]}}
 ]}
}"#;

const TRALBUM: &str = r#" {"current":{"title":"Fallback title"},"album_release_date":"01 Jan 2020","trackinfo":[
  {"track_id":12,"title":"Second","file":{"mp3-128":"https://s.example/2"}},
  {"title":"No id","file":{"mp3-128":"https://s.example/x"}},
  {"track_id":12,"title":"Second again","file":{"mp3-128":"https://s.example/2b"}}
 ]} "#;

const EMBED: &str = r#"{"tralbum_param":{"name":"album","value":4242},"artist":"Los","album_title":"All Hell"}"#;

fn page() -> String {
    format!(
        "<html><head><script type=\"application/ld+json\">{}</script>\
         <script data-tralbum='{}' data-embed='{}'></script></head><body></body></html>",
        LD, TRALBUM, EMBED
    )
}

#[test]
fn tralbum_reading_takes_positions_for_missing_ids_and_replaces_repeated_ones() {
    let album = scrape_by_data_tralbum(Some(EMBED), TRALBUM);
    assert_eq!(album.id, 4242);
    assert_eq!(album.artist, "Los");
    assert_eq!(album.name, "All Hell");
    assert_eq!(album.release_date, "01 Jan 2020");
    assert_eq!(album.url, "");
    assert_eq!(album.featured_track_num, None);
    assert_eq!(album.tags, None);
    assert_eq!(album.tracks.len(), 2);
    let first = album.tracks.at(0);
    assert_eq!((first.id, first.num, first.album_id), (12, 3, 4242));
    assert_eq!(first.name, "Second again");
    assert_eq!(first.url, "https://s.example/2b");
    let second = album.tracks.at(1);
    assert_eq!((second.id, second.num), (1, 2));
    assert_eq!(second.name, "No id");
}

#[test]
fn tralbum_reading_without_embed_has_id_zero_and_the_current_title() {
    let album = scrape_by_data_tralbum(None, TRALBUM);
    assert_eq!(album.id, 0);
    assert_eq!(album.artist, "");
    assert_eq!(album.name, "Fallback title");
    assert_eq!(album.tracks.at(0).album_id, 0);
    let empty = scrape_by_data_tralbum(None, "{}");
    assert_eq!(empty.tracks.len(), 0);
    assert_eq!(empty.name, "");
}

#[test]
fn track_url_is_found_by_name() {
    let album = scrape_by_data_tralbum(Some(EMBED), TRALBUM);
    assert_eq!(find_track_url_by_name(&album, "No id"), Some("https://s.example/x".to_string()));
    assert_eq!(find_track_url_by_name(&album, "Second"), None);
    assert_eq!(
        resolve_url(String::new(), "No id", Some(&album)),
        Some("https://s.example/x".to_string())
    );
    assert_eq!(resolve_url("given".to_string(), "No id", Some(&album)), Some("given".to_string()));
    assert_eq!(resolve_url(String::new(), "No id", None), None);
    assert_eq!(resolve_url(String::new(), "Other", Some(&album)), None);
}

#[test]
fn linked_data_gives_the_album() {
    let fallback = scrape_by_data_tralbum(
        Some(EMBED),
        r#"{"trackinfo":[{"track_id":12,"title":"Second","file":{"mp3-128":"https://s.example/2?x=1&amp;y=2"}}]}"#,
    );
    let album = scrape_by_application_ld_json(LD, Some(&fallback)).expect("an album");
    assert_eq!(album.id, 4242);
    assert_eq!(album.name, "All Hell & More");
    assert_eq!(album.artist, "Los & Co");
    assert_eq!(album.url, "https://x.bandcamp.com/album/all-hell");
    assert_eq!(album.release_date, "19 Jul 2024");
    assert_eq!(album.featured_track_num, Some(2));
    assert_eq!(album.tags, Some("rock, indie".to_string()));
    assert_eq!(album.album_art_url, Some("https://img.example/a.jpg".to_string()));
    assert_eq!(album.artist_art_url, Some("https://img.example/artist.jpg".to_string()));
    assert_eq!(album.tracks.len(), 2);
    let one = album.tracks.at(0);
    assert_eq!((one.id, one.num, one.album_id), (11, 1, 4242));
    assert_eq!(one.name, "One:Two");
    assert_eq!(one.url, "https://s.example/1?a=1&b=2");
    let two = album.tracks.at(1);
    assert_eq!((two.id, two.num), (12, 2));
    assert_eq!(two.name, "Second");
    assert_eq!(two.url, "https://s.example/2?x=1&y=2");
    assert!(album.owns_its_tracks());
}

#[test]
fn linked_data_without_fallback_passes_over_tracks_without_address() {
    let album = scrape_by_application_ld_json(LD, None).expect("an album");
    assert_eq!(album.tracks.len(), 1);
    assert_eq!(album.tracks.at(0).id, 11);
}

#[test]
fn linked_data_is_refused_where_it_cannot_be_read() {
    assert!(scrape_by_application_ld_json("{\"name\":", None).is_none());
    assert!(scrape_by_application_ld_json("{\"name\":\"no id\"}", None).is_none());
    let bad_track = LD.replace("\"value\":12", "\"value\":\"twelve\"");
    assert!(scrape_by_application_ld_json(&bad_track, None).is_none());
}

#[test]
fn single_track_page_has_one_track() {
    let json = r#"{"name":"Solo/Piece","mainEntityOfPage":"https://x.bandcamp.com/track/solo",
      "albumRelease":[{"additionalProperty":[{"name":"item_type","value":"a"},{"name":"item_id","value":7}]}],
      "additionalProperty":[{"name":"track_id","value":70},{"name":"file_mp3-128","value":"https://s.example/solo?a=1&amp;b=2"}]}"#;
    let album = scrape_by_application_ld_json(json, None).expect("an album");
    assert_eq!(album.id, 7);
    assert_eq!(album.featured_track_num, None);
    assert_eq!(album.tags, Some(String::new()));
    assert_eq!(album.tracks.len(), 1);
    let t = album.tracks.at(0);
    assert_eq!((t.id, t.num, t.album_id), (70, 1, 7));
    assert_eq!(t.name, "Solo:Piece");
    assert_eq!(t.url, "https://s.example/solo?a=1&b=2");
    let silent = json.replace("https://s.example/solo?a=1&amp;b=2", "");
    assert!(scrape_by_application_ld_json(&silent, None).is_none());
    let nameless = json.replace("\"value\":70", "\"value\":\"x\"");
    assert!(scrape_by_application_ld_json(&nameless, None).is_none());
}

#[test]
fn page_gives_the_album_with_addresses_lent_by_the_data_element() {
    let album = get_album(&page()).expect("an album");
    assert_eq!(album.id, 4242);
    assert_eq!(album.name, "All Hell &amp; More");
    assert_eq!(album.artist, "Los &amp; Co");
    assert_eq!(album.tags, Some("rock, indie".to_string()));
    assert_eq!(album.tracks.len(), 1);
    assert_eq!(album.tracks.at(0).name, "One:Two");
    assert_eq!(album.tracks.at(0).url, "https://s.example/1?a=1&amp;b=2");
    assert_eq!(album.tracks.at(0).id, 11);
    let lending = page().replace("\"title\":\"Second again\"", "\"title\":\"Second\"");
    let album = get_album(&lending).expect("an album");
    assert_eq!(album.tracks.len(), 2);
    assert_eq!(album.tracks.at(1).url, "https://s.example/2b");
}

#[test]
fn page_without_linked_data_gives_nothing() {
    assert!(get_album("<html><body><p>nothing here</p></body></html>").is_none());
    assert!(get_album("").is_none());
}

#[test]
fn test_get_album() {
    let mut _result = false;
    let html = page();
    let _album = get_album(&html).expect("Failed to get Album");
    println!("{}", _album.to_text());
    _result = true;
    assert!(_result, "Failed to fetch album")
}

#[test]
fn texts_that_are_no_json_are_read_as_nothing() {
    let album = scrape_by_data_tralbum(Some("\""), "\"");
    assert_eq!(album.id, 0);
    assert_eq!(album.artist, "");
    assert_eq!(album.name, "");
    assert_eq!(album.release_date, "");
    assert_eq!(album.tracks.len(), 0);
    let half = scrape_by_data_tralbum(Some("{\"artist\":"), TRALBUM);
    assert_eq!(half.id, 0);
    assert_eq!(half.artist, "");
    assert_eq!(half.name, "Fallback title");
    assert_eq!(half.tracks.len(), 2);
    assert_eq!(half.tracks.at(0).album_id, 0);
    let other = scrape_by_data_tralbum(Some(EMBED), "{\"trackinfo\":[");
    assert_eq!(other.id, 4242);
    assert_eq!(other.name, "All Hell");
    assert_eq!(other.release_date, "");
    assert_eq!(other.tracks.len(), 0);
    assert!(scrape_by_application_ld_json("\"", None).is_none());
    assert!(scrape_by_application_ld_json("", None).is_none());
    assert!(get_album("<script type=\"application/ld+json\">\"</script>").is_none());
}
