use bandmix::api::{
    discover_api, is_short_text, MAX_TEXT_BYTES, Api, DiscoveryType, Format, Function, Genre, QueryError,
    RecommendedType, RequestError,
};
use bandmix::text::{decimal_string, signed_decimal_string};

#[test]
fn test_query_request() {
    let url = discover_api()
        .build_query(&Function::get_web(0, None, None, None, None))
        .expect("Failed to build url");
    assert_eq!(url, "https://bandcamp.com/api/discover/3/get_web?g=all&s=top&p=0&gn=0&f=all&w=0");

    let _res = Api::accept(true, "{\"items\":[]}".to_string());
    assert!(_res.is_ok());
    assert!(_res.unwrap() != String::default());
}

#[test]
fn get_web_defaults() {
    let f = Function::get_web(0, None, None, None, None);
    assert_eq!(f.name(), "get_web");
    assert_eq!(f.parameter_count(), 6);
    assert_eq!(f.parameter("g"), Some("all"));
    assert_eq!(f.parameter("s"), Some("top"));
    assert_eq!(f.parameter("p"), Some("0"));
    assert_eq!(f.parameter("gn"), Some("0"));
    assert_eq!(f.parameter("f"), Some("all"));
    assert_eq!(f.parameter("w"), Some("0"));
    assert_eq!(f.parameter("r"), None);
}

#[test]
fn get_web_recommended_has_the_kind() {
    let f = Function::get_web(
        12,
        Some(Genre::hip_hop_rap),
        Some(DiscoveryType::rec),
        Some(Format::vinyl),
        None,
    );
    assert_eq!(f.parameter_count(), 7);
    assert_eq!(f.parameter("g"), Some("hip-hop-rap"));
    assert_eq!(f.parameter("s"), Some("rec"));
    assert_eq!(f.parameter("p"), Some("12"));
    assert_eq!(f.parameter("f"), Some("vinyl"));
    assert_eq!(f.parameter("r"), Some("most"));
    let g = Function::get_web(
        0,
        None,
        Some(DiscoveryType::rec),
        None,
        Some(RecommendedType::latest),
    );
    assert_eq!(g.parameter("r"), Some("latest"));
    let h = Function::get_web(0, None, Some(DiscoveryType::new), None, Some(RecommendedType::latest));
    assert_eq!(h.parameter("r"), None);
    assert_eq!(h.parameter_count(), 6);
}

#[test]
fn update_replaces_known_keys_only() {
    let mut f = Function::get_web(0, None, None, None, None);
    f.update_get_web_page(4294967295);
    assert_eq!(f.parameter("p"), Some("4294967295"));
    assert!(f.update("g".to_string(), "jazz".to_string()));
    assert_eq!(f.parameter("g"), Some("jazz"));
    assert!(!f.update("t".to_string(), "death-metal".to_string()));
    assert_eq!(f.parameter("t"), None);
    assert_eq!(f.parameter_count(), 6);
    let copy = f.clone();
    assert_eq!(copy.parameter("g"), Some("jazz"));
    assert_eq!(Function::default().parameter_count(), 0);
}

#[test]
fn build_query_writes_segment_and_pairs_in_order() {
    let f = Function::get_web(
        3,
        Some(Genre::r_b_soul),
        Some(DiscoveryType::rec),
        Some(Format::cassette),
        Some(RecommendedType::latest),
    );
    assert_eq!(
        discover_api().build_query(&f),
        Ok("https://bandcamp.com/api/discover/3/get_web?g=r-b-soul&s=rec&p=3&gn=0&f=cassette&w=0&r=latest"
            .to_string())
    );
    let mut spaced = Function::get_web(0, None, None, None, None);
    spaced.update("g".to_string(), "spoken word&x".to_string());
    assert_eq!(
        Api::new("http://localhost:8080").build_query(&spaced),
        Ok("http://localhost:8080/get_web?g=spoken+word%26x&s=top&p=0&gn=0&f=all&w=0".to_string())
    );
}

#[test]
fn build_query_refuses_a_bad_base() {
    let f = Function::get_web(0, None, None, None, None);
    assert_eq!(Api::new("not an address").build_query(&f), Err(QueryError::Parse));
    assert_eq!(Api::new("mailto:someone@example.com").build_query(&f), Err(QueryError::NotABase));
}

#[test]
fn accept_takes_only_well_formed_bodies_of_successful_answers() {
    assert_eq!(Api::accept(true, "[1,2]".to_string()), Ok("[1,2]".to_string()));
    assert_eq!(Api::accept(true, "{\"a\":".to_string()), Err(RequestError::InvalidJson));
    assert_eq!(Api::accept(true, String::new()), Err(RequestError::InvalidJson));
    assert_eq!(Api::accept(false, "[1,2]".to_string()), Err(RequestError::Status));
    assert_eq!(Api::check_body("x".to_string(), true), Ok("x".to_string()));
    assert_eq!(Api::check_body("x".to_string(), false), Err(RequestError::InvalidJson));
}

#[test]
fn decimal_string_writes_digits() {
    assert_eq!(decimal_string(0), "0");
    assert_eq!(decimal_string(7), "7");
    assert_eq!(decimal_string(10), "10");
    assert_eq!(decimal_string(1234567890), "1234567890");
    assert_eq!(decimal_string(u32::MAX), "4294967295");
}

#[test]
fn genre_texts() {
    assert_eq!(Genre::all.as_str(), "all");
    assert_eq!(Genre::hip_hop_rap.to_string(), "hip-hop-rap");
    assert_eq!(Genre::r_b_soul.as_str(), "r-b-soul");
    assert_eq!(Genre::spoken_word.as_str(), "spoken-word");
    assert_eq!(Genre::latin.as_str(), "latin");
    assert_eq!(Genre::default(), Genre::all);
    assert_eq!(Genre::parse("hip-hop/rap"), Some(Genre::hip_hop_rap));
    assert_eq!(Genre::parse("hip-hop-rap"), Some(Genre::hip_hop_rap));
    assert_eq!(Genre::parse("r&b/soul"), Some(Genre::r_b_soul));
    assert_eq!(Genre::parse("spoken word"), Some(Genre::spoken_word));
    assert_eq!(Genre::parse("spoken-word"), Some(Genre::spoken_word));
    assert_eq!(Genre::parse("audiobooks"), Some(Genre::audiobooks));
    assert_eq!(Genre::parse("hip_hop_rap"), None);
    assert_eq!(Genre::parse("Rock"), None);
    assert_eq!(Genre::parse(""), None);
}

#[test]
fn every_genre_reads_its_own_text() {
    let all = [
        Genre::all, Genre::electronic, Genre::rock, Genre::metal, Genre::alternative,
        Genre::hip_hop_rap, Genre::experimental, Genre::punk, Genre::folk, Genre::pop,
        Genre::ambient, Genre::soundtrack, Genre::world, Genre::jazz, Genre::acoustic,
        Genre::funk, Genre::r_b_soul, Genre::devotional, Genre::classical, Genre::reggae,
        Genre::podcasts, Genre::country, Genre::spoken_word, Genre::comedy, Genre::blues,
        Genre::kids, Genre::audiobooks, Genre::latin,
    ];
    assert_eq!(all.len(), 28);
    for g in all {
        assert_eq!(Genre::parse(g.as_str()), Some(g));
    }
}

#[test]
fn other_choices_texts() {
    assert_eq!(DiscoveryType::default(), DiscoveryType::top);
    assert_eq!(DiscoveryType::parse("new"), Some(DiscoveryType::new));
    assert_eq!(DiscoveryType::rec.as_str(), "rec");
    assert_eq!(DiscoveryType::parse("best"), None);
    assert_eq!(RecommendedType::default(), RecommendedType::most);
    assert_eq!(RecommendedType::parse("latest"), Some(RecommendedType::latest));
    assert_eq!(RecommendedType::most.to_string(), "most");
    assert_eq!(Format::default(), Format::all);
    assert_eq!(Format::parse("cd"), Some(Format::cd));
    assert_eq!(Format::cassette.as_str(), "cassette");
    assert_eq!(Format::digital.to_string(), "digital");
    assert_eq!(Format::parse("tape"), None);
}

#[test]
fn signed_decimal_string_writes_the_sign() {
    assert_eq!(signed_decimal_string(0), "0");
    assert_eq!(signed_decimal_string(15), "15");
    assert_eq!(signed_decimal_string(-1), "-1");
    assert_eq!(signed_decimal_string(i32::MAX), "2147483647");
    assert_eq!(signed_decimal_string(i32::MIN), "-2147483648");
}

#[test]
fn build_query_refuses_what_is_too_long() {
    let mut f = Function::get_web(0, None, None, None, None);
    assert!(f.is_short());
    f.update("g".to_string(), "a".repeat(MAX_TEXT_BYTES));
    assert!(f.is_short());
    let address = discover_api().build_query(&f).expect("an address");
    assert_eq!(address.len(), "https://bandcamp.com/api/discover/3/get_web?g=&s=top&p=0&gn=0&f=all&w=0".len() + MAX_TEXT_BYTES);
    f.update("g".to_string(), "a".repeat(MAX_TEXT_BYTES + 1));
    assert!(!f.is_short());
    assert_eq!(discover_api().build_query(&f), Err(QueryError::TooLong));
    let long_base = format!("https://example.com/{}", "b".repeat(MAX_TEXT_BYTES));
    let g = Function::get_web(0, None, None, None, None);
    assert_eq!(Api::new(&long_base).build_query(&g), Err(QueryError::TooLong));
    assert!(is_short_text(""));
    assert!(is_short_text(&"é".repeat(MAX_TEXT_BYTES / 2)));
    assert!(!is_short_text(&"é".repeat(MAX_TEXT_BYTES / 2 + 1)));
}
