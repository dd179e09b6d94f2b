use bandmix::discovery::{album_page_url, album_urls};

#[test]
fn album_page_url_is_composed_from_subdomain_and_slug() {
    assert_eq!(
        album_page_url("loscampesinos", "all-hell"),
        "https://loscampesinos.bandcamp.com/album/all-hell"
    );
    assert_eq!(album_page_url("", ""), "https://.bandcamp.com/album/");
}

#[test]
fn album_urls_takes_albums_only_in_page_order() {
    let body = "{\"items\":[\
        {\"type\":\"a\",\"url_hints\":{\"subdomain\":\"one\",\"slug\":\"first\"}},\
        {\"type\":\"t\",\"url_hints\":{\"subdomain\":\"skip\",\"slug\":\"track\"}},\
        {\"type\":\"a\",\"url_hints\":{\"subdomain\":\"two\",\"slug\":\"second\",\"extra\":1}}\
        ]}";
    assert_eq!(
        album_urls(body),
        vec![
            "https://one.bandcamp.com/album/first".to_string(),
            "https://two.bandcamp.com/album/second".to_string(),
        ]
    );
}

#[test]
fn album_urls_of_a_page_without_albums_is_empty() {
    assert!(album_urls("{\"items\":[]}").is_empty());
    assert!(album_urls("{}").is_empty());
    assert!(album_urls("").is_empty());
    assert!(album_urls("{\"items\":[{\"type\":\"t\",\"url_hints\":{}}]}").is_empty());
}

#[test]
fn entry_text_is_name_artist_and_album() {
    let e = bandmix::discovery::Entry {
        name: "Song".to_string(),
        artist: "Artist".to_string(),
        album_name: "Album".to_string(),
        album_art_url: None,
        url: "u".to_string(),
    };
    assert_eq!(e.to_text(), "Song\n Artist by Album");
    let d = bandmix::discovery::Entry::default();
    assert_eq!(d.to_text(), "\n  by ");
    assert!(!d.same_as(&e));
    assert!(d.same_as(&bandmix::discovery::Entry::default()));
    let mut other = e.clone();
    assert!(other.same_as(&e));
    other.album_art_url = Some("art".to_string());
    assert!(!other.same_as(&e));
}

#[test]
fn album_urls_of_a_body_that_is_no_json_is_empty() {
    assert!(album_urls("\"").is_empty());
    assert!(album_urls("{\"items\":[").is_empty());
    assert!(album_urls("\"@this").is_empty());
}
