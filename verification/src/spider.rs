//! Reading an album out of an album page.
//!
//! The page is HTML that carries the album twice: as linked data in one
//! script element, and in the attributes of another. Finding the elements is
//! the `scraper` crate's work and reading their JSON is gjson's; both stand
//! behind functions whose contracts are believed. What is made of the values
//! they give is verified.

use scraper::{Html, Selector};
use vstd::prelude::*;
use vstd::string::StringExecFns;
use crate::json::{
    gjson_array,
    gjson_i32,
    gjson_text,
    gjson_valid,
    json_array,
    json_i32,
    json_text,
    json_valid,
};
use crate::models::{Album, AlbumView, Track, TrackList, TrackView, inserted};
use crate::text::{parse_i32, parse_u32, parsed_i32, parsed_u32, str_eq};

verus! {

/// The inner HTML of the first element of a page that a selector matches.
pub uninterp spec fn scraped_inner_html(html: Seq<char>, selector: Seq<char>) -> Option<Seq<char>>;

/// The value of an attribute of the first element of a page that a selector
/// matches.
pub uninterp spec fn scraped_attr(html: Seq<char>, selector: Seq<char>, attr: Seq<char>) -> Option<
    Seq<char>,
>;

/// A text with its HTML entities resolved.
pub uninterp spec fn html_decoded(text: Seq<char>) -> Seq<char>;

/// A text without the white space at its ends.
pub uninterp spec fn trimmed(text: Seq<char>) -> Seq<char>;

/// The characters of an optional text.
pub open spec fn chars_of(s: Option<String>) -> Option<Seq<char>> {
    match s {
        Some(t) => Some(t@),
        None => None,
    }
}

/// `Html::parse_document`, `Selector::parse`, `Html::select` and
/// `ElementRef::inner_html`: the inner HTML of the first element that the
/// selector matches; `None` where the selector is malformed or matches
/// nothing.
#[verifier::external_body]
fn page_inner_html(html: &str, selector: &str) -> (r: Option<String>)
    ensures
        chars_of(r) == scraped_inner_html(html@, selector@),
{
    let dom = Html::parse_document(html);
    let selector = Selector::parse(selector).ok()?;
    let element = dom.select(&selector).next()?;
    Some(element.inner_html())
}

/// `Html::parse_document`, `Selector::parse`, `Html::select` and
/// `Element::attr`: the value of the attribute on the first element that the
/// selector matches; `None` where there is no such element or it lacks the
/// attribute.
#[verifier::external_body]
fn page_attr(html: &str, selector: &str, attr: &str) -> (r: Option<String>)
    ensures
        chars_of(r) == scraped_attr(html@, selector@, attr@),
{
    let dom = Html::parse_document(html);
    let selector = Selector::parse(selector).ok()?;
    let element = dom.select(&selector).next()?;
    element.value().attr(attr).map(|value| value.to_string())
}

/// `html_escape::decode_html_entities`.
#[verifier::external_body]
fn decode_entities(text: &str) -> (r: String)
    ensures
        r@ == html_decoded(text@),
{
    html_escape::decode_html_entities(text).into_owned()
}

/// `str::trim`.
#[verifier::external_body]
fn trim(text: &str) -> (r: &str)
    ensures
        r@ == trimmed(text@),
{
    text.trim()
}

/// A text with each slash replaced by a colon.
pub open spec fn without_slashes(text: Seq<char>) -> Seq<char> {
    text.map_values(
        |c: char|
            if c == '/' {
                ':'
            } else {
                c
            },
    )
}

/// `str::replace` of `/` by `:`.
#[verifier::external_body]
fn slashes_to_colons(text: &str) -> (r: String)
    ensures
        r@ == without_slashes(text@),
{
    text.replace('/', ":")
}

/// The most items of a track list that are read from a page.
pub const MAX_TRACKS: usize = 0x7fff_ffff;

/// The track that an item of the attribute data describes. An item without a
/// readable identifier takes its position as identifier.
pub open spec fn tralbum_track(item: Seq<char>, album_id: u32, index: int) -> TrackView {
    TrackView {
        id: match parsed_u32(gjson_text(item, "track_id"@)) {
            Some(id) => id,
            None => index as u32,
        },
        num: (index + 1) as i32,
        name: gjson_text(item, "title"@),
        url: gjson_text(item, "file.mp3-128"@),
        album_id,
    }
}

/// The tracks that the first `n` items of the attribute data describe. An
/// item that is not well-formed JSON describes none and is passed over; it
/// still counts as a position.
pub open spec fn tralbum_tracks(items: Seq<Seq<char>>, album_id: u32, n: int) -> Seq<TrackView>
    decreases n,
{
    if n <= 0 {
        Seq::empty()
    } else if gjson_valid(items[n - 1]) {
        inserted(
            tralbum_tracks(items, album_id, n - 1),
            tralbum_track(items[n - 1], album_id, n - 1),
        )
    } else {
        tralbum_tracks(items, album_id, n - 1)
    }
}

/// How many items of a list are read.
pub open spec fn items_read(items: Seq<Seq<char>>) -> int {
    if items.len() <= MAX_TRACKS {
        items.len() as int
    } else {
        MAX_TRACKS as int
    }
}

/// The data of an attribute: its text without the white space at its ends,
/// where there is an attribute and that text is well-formed JSON.
pub open spec fn attribute_data(text: Option<Seq<char>>) -> Option<Seq<char>> {
    match text {
        Some(t) => if gjson_valid(trimmed(t)) {
            Some(trimmed(t))
        } else {
            None
        },
        None => None,
    }
}

/// What a path selects in the data of an attribute, read as text; nothing
/// where the attribute has no data.
pub open spec fn attribute_text(data: Option<Seq<char>>, path: Seq<char>) -> Seq<char> {
    match data {
        Some(d) => gjson_text(d, path),
        None => Seq::empty(),
    }
}

/// The identifier that the embed attribute gives the album: zero where it
/// gives none.
pub open spec fn tralbum_id(embed: Option<Seq<char>>) -> u32 {
    match parsed_u32(attribute_text(attribute_data(embed), "tralbum_param.value"@)) {
        Some(id) => if attribute_data(embed).is_some() {
            id
        } else {
            0
        },
        None => 0,
    }
}

/// The album that the attributes of the data element describe: identifier,
/// artist and title from the embed attribute, the title from the album data
/// where the embed attribute has none, and the release date and the tracks
/// from the album data. An attribute whose text is not well-formed JSON
/// gives nothing.
pub open spec fn tralbum_album(embed: Option<Seq<char>>, tralbum: Seq<char>) -> AlbumView {
    let about = attribute_data(embed);
    let data = attribute_data(Some(tralbum));
    let title = attribute_text(about, "album_title"@);
    AlbumView {
        id: tralbum_id(embed),
        artist: attribute_text(about, "artist"@),
        name: if title.len() == 0 {
            attribute_text(data, "current.title"@)
        } else {
            title
        },
        url: Seq::empty(),
        release_date: attribute_text(data, "album_release_date"@),
        featured_track_num: None,
        tracks: match data {
            Some(d) => {
                let items = gjson_array(d, "trackinfo"@);
                tralbum_tracks(items, tralbum_id(embed), items_read(items))
            },
            None => Seq::empty(),
        },
        tags: None,
        album_art_url: None,
        artist_art_url: None,
    }
}

/// Reads the tracks of the album data.
fn read_tralbum_tracks(data: &str, id: u32) -> (tracks: TrackList)
    requires
        gjson_valid(data@),
    ensures
        tracks@ == tralbum_tracks(
            gjson_array(data@, "trackinfo"@),
            id,
            items_read(gjson_array(data@, "trackinfo"@)),
        ),
{
    let items = json_array(data, "trackinfo");
    let ghost item_views = gjson_array(data@, "trackinfo"@);
    let n = if items.len() <= MAX_TRACKS {
        items.len()
    } else {
        MAX_TRACKS
    };
    let mut tracks = TrackList::new();
    let mut i: usize = 0;
    while i < n
        invariant
            n == items_read(item_views),
            items@.len() == item_views.len(),
            forall|k: int| 0 <= k < items@.len() ==> (#[trigger] items@[k])@ == item_views[k],
            i <= n,
            n <= MAX_TRACKS,
            tracks@ == tralbum_tracks(item_views, id, i as int),
        decreases n - i,
    {
        let item = items[i].as_str();
        if json_valid(item) {
            let track_id = match parse_u32(json_text(item, "track_id").as_str()) {
                Some(found) => found,
                None => i as u32,
            };
            tracks.insert(
                Track {
                    id: track_id,
                    num: (i + 1) as i32,
                    name: json_text(item, "title"),
                    url: json_text(item, "file.mp3-128"),
                    album_id: id,
                },
            );
        }
        i += 1;
    }
    tracks
}

/// Reads the album that the attributes of the data element describe.
pub fn scrape_by_data_tralbum(embed: Option<&str>, tralbum: &str) -> (r: Album)
    ensures
        r@ == tralbum_album(
            match embed {
                Some(e) => Some(e@),
                None => None,
            },
            tralbum@,
        ),
{
    let mut id: u32 = 0;
    let mut artist = String::new();
    let mut name = String::new();
    if let Some(e) = embed {
        let about = trim(e);
        if json_valid(about) {
            id = match parse_u32(json_text(about, "tralbum_param.value").as_str()) {
                Some(found) => found,
                None => 0,
            };
            artist = json_text(about, "artist");
            name = json_text(about, "album_title");
        }
    }
    let data = trim(tralbum);
    let mut release_date = String::new();
    let mut tracks = TrackList::new();
    if json_valid(data) {
        if name.as_str().is_empty() {
            name = json_text(data, "current.title");
        }
        release_date = json_text(data, "album_release_date");
        tracks = read_tralbum_tracks(data, id);
    } else {
        assert(name@.len() == 0 ==> name@ =~= Seq::<char>::empty());
    }
    Album {
        id,
        artist,
        name,
        url: String::new(),
        release_date,
        featured_track_num: None,
        tracks,
        tags: None,
        album_art_url: None,
        artist_art_url: None,
    }
}

/// The stream address of the first track with the given name.
pub open spec fn url_by_name(tracks: Seq<TrackView>, name: Seq<char>) -> Option<Seq<char>>
    decreases tracks.len(),
{
    if tracks.len() == 0 {
        None
    } else if tracks[0].name == name {
        Some(tracks[0].url)
    } else {
        url_by_name(tracks.drop_first(), name)
    }
}

/// Nothing is found among no tracks, and among more tracks what is found
/// among the earlier ones stays found.
proof fn lemma_url_by_name_step(tracks: Seq<TrackView>, name: Seq<char>, n: int)
    requires
        0 <= n < tracks.len(),
        forall|k: int| 0 <= k < n ==> (#[trigger] tracks[k]).name != name,
    ensures
        url_by_name(tracks, name) == url_by_name(tracks.skip(n), name),
    decreases n,
{
    if n > 0 {
        assert(tracks[0].name != name);
        let rest = tracks.drop_first();
        assert forall|k: int| 0 <= k < n - 1 implies (#[trigger] rest[k]).name != name by {
            assert(tracks[k + 1].name != name);
        }
        lemma_url_by_name_step(rest, name, n - 1);
        assert(rest.skip(n - 1) =~= tracks.skip(n));
    } else {
        assert(tracks.skip(0) =~= tracks);
    }
}

/// Finds the stream address of the first track of an album that has the
/// given name.
pub fn find_track_url_by_name(album: &Album, name: &str) -> (r: Option<String>)
    ensures
        chars_of(r) == url_by_name(album@.tracks, name@),
{
    let n = album.tracks.len();
    let mut i: usize = 0;
    while i < n
        invariant
            n == album.tracks@.len(),
            i <= n,
            forall|k: int| 0 <= k < i ==> (#[trigger] album.tracks@[k]).name != name@,
        decreases n - i,
    {
        let track = album.tracks.at(i);
        if str_eq(track.name.as_str(), name) {
            proof {
                lemma_url_by_name_step(album.tracks@, name@, i as int);
                assert(album.tracks@.skip(i as int)[0] == album.tracks@[i as int]);
            }
            return Some(track.url.clone());
        }
        i += 1;
    }
    proof {
        lemma_url_by_name_none(album.tracks@, name@);
    }
    None
}

/// Where no track has the name, no address is found.
proof fn lemma_url_by_name_none(tracks: Seq<TrackView>, name: Seq<char>)
    requires
        forall|k: int| 0 <= k < tracks.len() ==> (#[trigger] tracks[k]).name != name,
    ensures
        url_by_name(tracks, name).is_none(),
    decreases tracks.len(),
{
    if tracks.len() > 0 {
        assert(tracks[0].name != name);
        let rest = tracks.drop_first();
        assert forall|k: int| 0 <= k < rest.len() implies (#[trigger] rest[k]).name != name by {
            assert(tracks[k + 1].name != name);
        }
        lemma_url_by_name_none(rest, name);
    }
}

/// The characters of what an optional album holds.
pub open spec fn view_of(album: Option<&Album>) -> Option<AlbumView> {
    match album {
        Some(a) => Some(a@),
        None => None,
    }
}

/// The stream address of a track: the one that is given, or, where none is
/// given, the one that the other reading of the page has for a track of the
/// same name.
pub open spec fn resolved_url(
    given: Seq<char>,
    name: Seq<char>,
    fallback: Option<AlbumView>,
) -> Option<Seq<char>> {
    if given.len() > 0 {
        Some(given)
    } else {
        match fallback {
            Some(other) => url_by_name(other.tracks, name),
            None => None,
        }
    }
}

/// Settles the stream address of a track.
pub fn resolve_url(given: String, name: &str, fallback: Option<&Album>) -> (r: Option<String>)
    ensures
        chars_of(r) == resolved_url(given@, name@, view_of(fallback)),
{
    if !given.as_str().is_empty() {
        return Some(given);
    }
    match fallback {
        Some(other) => find_track_url_by_name(other, name),
        None => None,
    }
}

/// The track that an item of the linked data describes; none where the item
/// has no readable identifier or no stream address can be settled for it.
pub open spec fn ld_item_track(
    item: Seq<char>,
    album_id: u32,
    fallback: Option<AlbumView>,
) -> Option<TrackView> {
    let raw_name = gjson_text(item, "item.name"@);
    let id = parsed_u32(
        gjson_text(item, "item.additionalProperty.#(name=track_id).value"@),
    );
    let url = resolved_url(
        gjson_text(item, "item.additionalProperty.#(name=file_mp3-128).value"@),
        raw_name,
        fallback,
    );
    if id.is_some() && url.is_some() {
        Some(
            TrackView {
                id: id.unwrap(),
                num: gjson_i32(item, "position"@),
                name: html_decoded(without_slashes(html_decoded(raw_name))),
                url: html_decoded(url.unwrap()),
                album_id,
            },
        )
    } else {
        None
    }
}

/// Whether an item has a readable identifier: it is well-formed JSON and
/// its identifier is written as a number.
pub open spec fn ld_id_readable(item: Seq<char>) -> bool {
    gjson_valid(item) && parsed_u32(
        gjson_text(item, "item.additionalProperty.#(name=track_id).value"@),
    ).is_some()
}

/// Whether each of the first `n` items has a readable identifier.
pub open spec fn ld_ids_readable(items: Seq<Seq<char>>, n: int) -> bool {
    forall|k: int| 0 <= k < n ==> ld_id_readable(#[trigger] items[k])
}

/// The tracks that the first `n` items of the linked data describe; an item
/// that describes none is passed over.
pub open spec fn ld_tracks(
    items: Seq<Seq<char>>,
    album_id: u32,
    fallback: Option<AlbumView>,
    n: int,
) -> Seq<TrackView>
    decreases n,
{
    if n <= 0 {
        Seq::empty()
    } else {
        let before = ld_tracks(items, album_id, fallback, n - 1);
        match ld_item_track(items[n - 1], album_id, fallback) {
            Some(t) => inserted(before, t),
            None => before,
        }
    }
}

/// The one track of a page that shows a single track.
pub open spec fn ld_single_track(
    json: Seq<char>,
    album_id: u32,
    fallback: Option<AlbumView>,
) -> Option<TrackView> {
    let name = gjson_text(json, "name"@);
    let id = parsed_u32(gjson_text(json, "additionalProperty.#(name=track_id).value"@));
    let url = resolved_url(
        html_decoded(gjson_text(json, "additionalProperty.#(name=file_mp3-128).value"@)),
        name,
        fallback,
    );
    if id.is_some() && url.is_some() {
        Some(
            TrackView {
                id: id.unwrap(),
                num: 1,
                name: without_slashes(name),
                url: url.unwrap(),
                album_id,
            },
        )
    } else {
        None
    }
}

/// The tag that a keyword gives: its text without the white space at its
/// ends. A keyword that is not well-formed JSON gives the empty tag.
pub open spec fn tag_of(keyword: Seq<char>) -> Seq<char> {
    if gjson_valid(keyword) {
        trimmed(gjson_text(keyword, "@this"@))
    } else {
        Seq::empty()
    }
}

/// The tags among the first `n` keywords: the tag of each keyword, where it
/// is not empty.
pub open spec fn kept_tags(keywords: Seq<Seq<char>>, n: int) -> Seq<Seq<char>>
    decreases n,
{
    if n <= 0 {
        Seq::empty()
    } else {
        let tag = tag_of(keywords[n - 1]);
        if tag.len() == 0 {
            kept_tags(keywords, n - 1)
        } else {
            kept_tags(keywords, n - 1).push(tag)
        }
    }
}

/// Texts written one after the other with a separator between them.
pub open spec fn joined(parts: Seq<Seq<char>>, separator: Seq<char>) -> Seq<char>
    decreases parts.len(),
{
    if parts.len() == 0 {
        Seq::empty()
    } else if parts.len() == 1 {
        parts[0]
    } else {
        joined(parts.drop_last(), separator) + separator + parts.last()
    }
}

/// The tracks of the linked data: the one track of a page that lists none, or
/// the tracks that the listed items describe. There are none to be had where
/// an identifier cannot be read, or where the one track has no address.
pub open spec fn ld_all_tracks(
    json: Seq<char>,
    album_id: u32,
    fallback: Option<AlbumView>,
) -> Option<Seq<TrackView>> {
    let items = gjson_array(json, "track.itemListElement"@);
    if items.len() == 0 {
        match ld_single_track(json, album_id, fallback) {
            Some(t) => Some(seq![t]),
            None => None,
        }
    } else if ld_ids_readable(items, items.len() as int) {
        Some(ld_tracks(items, album_id, fallback, items.len() as int))
    } else {
        None
    }
}

/// The album that the linked data of a page describes. There is none where
/// the data is not well-formed JSON, where the album's identifier cannot be
/// read, or where its tracks are not to be had.
pub open spec fn ld_album(json: Seq<char>, fallback: Option<AlbumView>) -> Option<AlbumView> {
    let id = parsed_u32(
        gjson_text(
            json,
            "albumRelease.#(additionalProperty.#(value=a)).additionalProperty.#(name=item_id).value"@,
        ),
    );
    if !gjson_valid(json) || id.is_none() {
        None
    } else {
        match ld_all_tracks(json, id.unwrap(), fallback) {
            Some(tracks) => {
                let keywords = gjson_array(json, "keywords"@);
                Some(
                    AlbumView {
                        id: id.unwrap(),
                        artist: html_decoded(gjson_text(json, "byArtist.name"@)),
                        name: html_decoded(gjson_text(json, "name"@)),
                        url: gjson_text(json, "mainEntityOfPage"@),
                        release_date: gjson_text(json, "datePublished"@),
                        featured_track_num: parsed_i32(
                            gjson_text(
                                json,
                                "additionalProperty.#(name=featured_track_num).value"@,
                            ),
                        ),
                        tracks,
                        tags: Some(joined(kept_tags(keywords, keywords.len() as int), ", "@)),
                        album_art_url: Some(gjson_text(json, "image"@)),
                        artist_art_url: Some(gjson_text(json, "byArtist.image"@)),
                    },
                )
            },
            None => None,
        }
    }
}

/// Reads the tags of the linked data.
fn read_tags(json: &str) -> (r: String)
    requires
        gjson_valid(json@),
    ensures
        r@ == joined(
            kept_tags(gjson_array(json@, "keywords"@), gjson_array(json@, "keywords"@).len() as int),
            ", "@,
        ),
{
    let keywords = json_array(json, "keywords");
    let ghost views = gjson_array(json@, "keywords"@);
    let n = keywords.len();
    let mut tags = String::new();
    let mut any = false;
    let mut i: usize = 0;
    while i < n
        invariant
            n == views.len(),
            keywords@.len() == views.len(),
            forall|k: int| 0 <= k < keywords@.len() ==> (#[trigger] keywords@[k])@ == views[k],
            i <= n,
            tags@ == joined(kept_tags(views, i as int), ", "@),
            any == (kept_tags(views, i as int).len() > 0),
        decreases n - i,
    {
        let keyword = keywords[i].as_str();
        let ghost before = kept_tags(views, i as int);
        if json_valid(keyword) {
            let text = json_text(keyword, "@this");
            let tag = trim(text.as_str());
            if !tag.is_empty() {
                if any {
                    tags.append(", ");
                }
                tags.append(tag);
                any = true;
                proof {
                    let after = kept_tags(views, i as int + 1);
                    assert(after == before.push(tag@));
                    assert(after.drop_last() =~= before);
                    assert(tags@ =~= joined(after, ", "@));
                }
            }
        }
        i += 1;
    }
    tags
}

/// Reads the tracks that the items of the linked data describe.
fn read_listed_tracks(items: &Vec<String>, album_id: u32, fallback: Option<&Album>) -> (r: Option<
    TrackList,
>)
    ensures
        match r {
            Some(tracks) => ld_ids_readable(texts(items@), items@.len() as int) && tracks@
                == ld_tracks(texts(items@), album_id, view_of(fallback), items@.len() as int),
            None => !ld_ids_readable(texts(items@), items@.len() as int),
        },
{
    let ghost views = texts(items@);
    let n = items.len();
    let mut tracks = TrackList::new();
    let mut i: usize = 0;
    while i < n
        invariant
            n == items@.len(),
            views == texts(items@),
            i <= n,
            ld_ids_readable(views, i as int),
            tracks@ == ld_tracks(views, album_id, view_of(fallback), i as int),
        decreases n - i,
    {
        let item = items[i].as_str();
        assert(views[i as int] == item@);
        if !json_valid(item) {
            assert(!ld_id_readable(views[i as int]));
            return None;
        }
        let given = json_text(item, "item.additionalProperty.#(name=file_mp3-128).value");
        let track_id = match parse_u32(
            json_text(item, "item.additionalProperty.#(name=track_id).value").as_str(),
        ) {
            Some(id) => id,
            None => {
                assert(!ld_id_readable(views[i as int]));
                return None;
            },
        };
        let raw_name = json_text(item, "item.name");
        if let Some(url) = resolve_url(given, raw_name.as_str(), fallback) {
            let once = decode_entities(raw_name.as_str());
            let name = decode_entities(slashes_to_colons(once.as_str()).as_str());
            tracks.insert(
                Track {
                    id: track_id,
                    num: json_i32(item, "position"),
                    name,
                    url: decode_entities(url.as_str()),
                    album_id,
                },
            );
        }
        i += 1;
    }
    Some(tracks)
}

/// The characters of each text of a vector.
pub open spec fn texts(items: Seq<String>) -> Seq<Seq<char>> {
    items.map_values(|t: String| t@)
}

/// Reads the one track of a page that shows a single track.
fn read_single_track(json: &str, album_id: u32, fallback: Option<&Album>) -> (r: Option<Track>)
    requires
        gjson_valid(json@),
    ensures
        match r {
            Some(t) => ld_single_track(json@, album_id, view_of(fallback)) == Some(t@),
            None => ld_single_track(json@, album_id, view_of(fallback)).is_none(),
        },
{
    let given = decode_entities(
        json_text(json, "additionalProperty.#(name=file_mp3-128).value").as_str(),
    );
    let id = match parse_u32(
        json_text(json, "additionalProperty.#(name=track_id).value").as_str(),
    ) {
        Some(id) => id,
        None => {
            return None;
        },
    };
    let name = json_text(json, "name");
    match resolve_url(given, name.as_str(), fallback) {
        Some(url) => Some(
            Track { id, num: 1, name: slashes_to_colons(name.as_str()), url, album_id },
        ),
        None => None,
    }
}

/// Reads the album that the linked data of a page describes. `fallback` is
/// the other reading of the page, which lends its stream addresses to tracks
/// that have none here.
pub fn scrape_by_application_ld_json(json: &str, fallback: Option<&Album>) -> (r: Option<Album>)
    ensures
        match r {
            Some(album) => ld_album(json@, view_of(fallback)) == Some(album@),
            None => ld_album(json@, view_of(fallback)).is_none(),
        },
{
    if !json_valid(json) {
        return None;
    }
    let id = match parse_u32(
        json_text(
            json,
            "albumRelease.#(additionalProperty.#(value=a)).additionalProperty.#(name=item_id).value",
        ).as_str(),
    ) {
        Some(id) => id,
        None => {
            return None;
        },
    };
    let items = json_array(json, "track.itemListElement");
    proof {
        assert(texts(items@) =~= gjson_array(json@, "track.itemListElement"@));
    }
    let tracks = if items.len() == 0 {
        match read_single_track(json, id, fallback) {
            Some(track) => {
                let mut one = TrackList::new();
                one.insert(track);
                assert(one@ =~= seq![track@]);
                one
            },
            None => {
                return None;
            },
        }
    } else {
        match read_listed_tracks(&items, id, fallback) {
            Some(tracks) => tracks,
            None => {
                return None;
            },
        }
    };
    Some(
        Album {
            id,
            artist: decode_entities(json_text(json, "byArtist.name").as_str()),
            name: decode_entities(json_text(json, "name").as_str()),
            url: json_text(json, "mainEntityOfPage"),
            release_date: json_text(json, "datePublished"),
            featured_track_num: parse_i32(
                json_text(json, "additionalProperty.#(name=featured_track_num).value").as_str(),
            ),
            tracks,
            tags: Some(read_tags(json)),
            album_art_url: Some(json_text(json, "image")),
            artist_art_url: Some(json_text(json, "byArtist.image")),
        },
    )
}

/// The album that a page describes: the album of its linked data, helped out
/// by the attributes of its data element where there is one. A page without
/// linked data describes none.
pub open spec fn page_album(html: Seq<char>) -> Option<AlbumView> {
    match scraped_inner_html(html, "script[type='application/ld+json']"@) {
        Some(json) => ld_album(
            json,
            match scraped_attr(html, "script[data-tralbum]"@, "data-tralbum"@) {
                Some(tralbum) => Some(
                    tralbum_album(
                        scraped_attr(html, "script[data-tralbum]"@, "data-embed"@),
                        tralbum,
                    ),
                ),
                None => None,
            },
        ),
        None => None,
    }
}

/// Reads the album that an album page describes.
pub fn get_album(html: &str) -> (r: Option<Album>)
    ensures
        match r {
            Some(album) => page_album(html@) == Some(album@),
            None => page_album(html@).is_none(),
        },
{
    let json = match page_inner_html(html, "script[type='application/ld+json']") {
        Some(json) => json,
        None => {
            return None;
        },
    };
    let fallback = match page_attr(html, "script[data-tralbum]", "data-tralbum") {
        Some(tralbum) => {
            let embed = page_attr(html, "script[data-tralbum]", "data-embed");
            Some(
                scrape_by_data_tralbum(
                    match &embed {
                        Some(e) => Some(e.as_str()),
                        None => None,
                    },
                    tralbum.as_str(),
                ),
            )
        },
        None => None,
    };
    scrape_by_application_ld_json(json.as_str(), fallback.as_ref())
}

} // verus!
