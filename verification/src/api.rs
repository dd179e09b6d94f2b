//! The catalog's discovery endpoint: what can be asked of it and how a
//! request is written.

use url::Url;
use vstd::prelude::*;
use vstd::utf8::encode_utf8;
use vstd::string::StringExecFns;
use crate::json::{gjson_valid, json_valid};
use crate::text::{decimal, decimal_string, str_eq};

verus! {

/// The genre of the discovery feed.
#[allow(non_camel_case_types)]
#[derive(Clone, Copy, Debug, PartialEq, Eq, Structural)]
pub enum Genre {
    all,
    electronic,
    rock,
    metal,
    alternative,
    hip_hop_rap,
    experimental,
    punk,
    folk,
    pop,
    ambient,
    soundtrack,
    world,
    jazz,
    acoustic,
    funk,
    r_b_soul,
    devotional,
    classical,
    reggae,
    podcasts,
    country,
    spoken_word,
    comedy,
    blues,
    kids,
    audiobooks,
    latin,
}

impl Genre {
    /// The text the catalog knows the value by.
    pub open spec fn text(self) -> Seq<char> {
        match self {
            Genre::all => "all"@,
            Genre::electronic => "electronic"@,
            Genre::rock => "rock"@,
            Genre::metal => "metal"@,
            Genre::alternative => "alternative"@,
            Genre::hip_hop_rap => "hip-hop-rap"@,
            Genre::experimental => "experimental"@,
            Genre::punk => "punk"@,
            Genre::folk => "folk"@,
            Genre::pop => "pop"@,
            Genre::ambient => "ambient"@,
            Genre::soundtrack => "soundtrack"@,
            Genre::world => "world"@,
            Genre::jazz => "jazz"@,
            Genre::acoustic => "acoustic"@,
            Genre::funk => "funk"@,
            Genre::r_b_soul => "r-b-soul"@,
            Genre::devotional => "devotional"@,
            Genre::classical => "classical"@,
            Genre::reggae => "reggae"@,
            Genre::podcasts => "podcasts"@,
            Genre::country => "country"@,
            Genre::spoken_word => "spoken-word"@,
            Genre::comedy => "comedy"@,
            Genre::blues => "blues"@,
            Genre::kids => "kids"@,
            Genre::audiobooks => "audiobooks"@,
            Genre::latin => "latin"@,
        }
    }

    /// The value a text stands for, if it stands for one.
    pub open spec fn parsed(s: Seq<char>) -> Option<Genre> {
        if s == "all"@ {
            Some(Genre::all)
        } else if s == "electronic"@ {
            Some(Genre::electronic)
        } else if s == "rock"@ {
            Some(Genre::rock)
        } else if s == "metal"@ {
            Some(Genre::metal)
        } else if s == "alternative"@ {
            Some(Genre::alternative)
        } else if s == "hip-hop-rap"@ {
            Some(Genre::hip_hop_rap)
        } else if s == "hip-hop/rap"@ {
            Some(Genre::hip_hop_rap)
        } else if s == "experimental"@ {
            Some(Genre::experimental)
        } else if s == "punk"@ {
            Some(Genre::punk)
        } else if s == "folk"@ {
            Some(Genre::folk)
        } else if s == "pop"@ {
            Some(Genre::pop)
        } else if s == "ambient"@ {
            Some(Genre::ambient)
        } else if s == "soundtrack"@ {
            Some(Genre::soundtrack)
        } else if s == "world"@ {
            Some(Genre::world)
        } else if s == "jazz"@ {
            Some(Genre::jazz)
        } else if s == "acoustic"@ {
            Some(Genre::acoustic)
        } else if s == "funk"@ {
            Some(Genre::funk)
        } else if s == "r-b-soul"@ {
            Some(Genre::r_b_soul)
        } else if s == "r&b/soul"@ {
            Some(Genre::r_b_soul)
        } else if s == "devotional"@ {
            Some(Genre::devotional)
        } else if s == "classical"@ {
            Some(Genre::classical)
        } else if s == "reggae"@ {
            Some(Genre::reggae)
        } else if s == "podcasts"@ {
            Some(Genre::podcasts)
        } else if s == "country"@ {
            Some(Genre::country)
        } else if s == "spoken-word"@ {
            Some(Genre::spoken_word)
        } else if s == "spoken word"@ {
            Some(Genre::spoken_word)
        } else if s == "comedy"@ {
            Some(Genre::comedy)
        } else if s == "blues"@ {
            Some(Genre::blues)
        } else if s == "kids"@ {
            Some(Genre::kids)
        } else if s == "audiobooks"@ {
            Some(Genre::audiobooks)
        } else if s == "latin"@ {
            Some(Genre::latin)
        } else {
            None
        }
    }

    pub fn as_str(&self) -> (s: &'static str)
        ensures
            s@ == self.text(),
    {
        match self {
            Genre::all => "all",
            Genre::electronic => "electronic",
            Genre::rock => "rock",
            Genre::metal => "metal",
            Genre::alternative => "alternative",
            Genre::hip_hop_rap => "hip-hop-rap",
            Genre::experimental => "experimental",
            Genre::punk => "punk",
            Genre::folk => "folk",
            Genre::pop => "pop",
            Genre::ambient => "ambient",
            Genre::soundtrack => "soundtrack",
            Genre::world => "world",
            Genre::jazz => "jazz",
            Genre::acoustic => "acoustic",
            Genre::funk => "funk",
            Genre::r_b_soul => "r-b-soul",
            Genre::devotional => "devotional",
            Genre::classical => "classical",
            Genre::reggae => "reggae",
            Genre::podcasts => "podcasts",
            Genre::country => "country",
            Genre::spoken_word => "spoken-word",
            Genre::comedy => "comedy",
            Genre::blues => "blues",
            Genre::kids => "kids",
            Genre::audiobooks => "audiobooks",
            Genre::latin => "latin",
        }
    }

    /// The value's text as an owned string.
    pub fn to_string(&self) -> (s: String)
        ensures
            s@ == self.text(),
    {
        self.as_str().to_owned()
    }

    /// Reads a value from the text the catalog knows it by.
    pub fn parse(s: &str) -> (r: Option<Genre>)
        ensures
            r == Genre::parsed(s@),
    {
        if str_eq(s, "all") {
            Some(Genre::all)
        } else if str_eq(s, "electronic") {
            Some(Genre::electronic)
        } else if str_eq(s, "rock") {
            Some(Genre::rock)
        } else if str_eq(s, "metal") {
            Some(Genre::metal)
        } else if str_eq(s, "alternative") {
            Some(Genre::alternative)
        } else if str_eq(s, "hip-hop-rap") {
            Some(Genre::hip_hop_rap)
        } else if str_eq(s, "hip-hop/rap") {
            Some(Genre::hip_hop_rap)
        } else if str_eq(s, "experimental") {
            Some(Genre::experimental)
        } else if str_eq(s, "punk") {
            Some(Genre::punk)
        } else if str_eq(s, "folk") {
            Some(Genre::folk)
        } else if str_eq(s, "pop") {
            Some(Genre::pop)
        } else if str_eq(s, "ambient") {
            Some(Genre::ambient)
        } else if str_eq(s, "soundtrack") {
            Some(Genre::soundtrack)
        } else if str_eq(s, "world") {
            Some(Genre::world)
        } else if str_eq(s, "jazz") {
            Some(Genre::jazz)
        } else if str_eq(s, "acoustic") {
            Some(Genre::acoustic)
        } else if str_eq(s, "funk") {
            Some(Genre::funk)
        } else if str_eq(s, "r-b-soul") {
            Some(Genre::r_b_soul)
        } else if str_eq(s, "r&b/soul") {
            Some(Genre::r_b_soul)
        } else if str_eq(s, "devotional") {
            Some(Genre::devotional)
        } else if str_eq(s, "classical") {
            Some(Genre::classical)
        } else if str_eq(s, "reggae") {
            Some(Genre::reggae)
        } else if str_eq(s, "podcasts") {
            Some(Genre::podcasts)
        } else if str_eq(s, "country") {
            Some(Genre::country)
        } else if str_eq(s, "spoken-word") {
            Some(Genre::spoken_word)
        } else if str_eq(s, "spoken word") {
            Some(Genre::spoken_word)
        } else if str_eq(s, "comedy") {
            Some(Genre::comedy)
        } else if str_eq(s, "blues") {
            Some(Genre::blues)
        } else if str_eq(s, "kids") {
            Some(Genre::kids)
        } else if str_eq(s, "audiobooks") {
            Some(Genre::audiobooks)
        } else if str_eq(s, "latin") {
            Some(Genre::latin)
        } else {
            None
        }
    }
}

impl Default for Genre {
    fn default() -> (r: Self)
        ensures
            r == Genre::all,
    {
        Genre::all
    }
}

/// How the discovery feed is ordered.
#[allow(non_camel_case_types)]
#[derive(Clone, Copy, Debug, PartialEq, Eq, Structural)]
pub enum DiscoveryType {
    top,
    new,
    rec,
}

impl DiscoveryType {
    /// The text the catalog knows the value by.
    pub open spec fn text(self) -> Seq<char> {
        match self {
            DiscoveryType::top => "top"@,
            DiscoveryType::new => "new"@,
            DiscoveryType::rec => "rec"@,
        }
    }

    /// The value a text stands for, if it stands for one.
    pub open spec fn parsed(s: Seq<char>) -> Option<DiscoveryType> {
        if s == "top"@ {
            Some(DiscoveryType::top)
        } else if s == "new"@ {
            Some(DiscoveryType::new)
        } else if s == "rec"@ {
            Some(DiscoveryType::rec)
        } else {
            None
        }
    }

    pub fn as_str(&self) -> (s: &'static str)
        ensures
            s@ == self.text(),
    {
        match self {
            DiscoveryType::top => "top",
            DiscoveryType::new => "new",
            DiscoveryType::rec => "rec",
        }
    }

    /// The value's text as an owned string.
    pub fn to_string(&self) -> (s: String)
        ensures
            s@ == self.text(),
    {
        self.as_str().to_owned()
    }

    /// Reads a value from the text the catalog knows it by.
    pub fn parse(s: &str) -> (r: Option<DiscoveryType>)
        ensures
            r == DiscoveryType::parsed(s@),
    {
        if str_eq(s, "top") {
            Some(DiscoveryType::top)
        } else if str_eq(s, "new") {
            Some(DiscoveryType::new)
        } else if str_eq(s, "rec") {
            Some(DiscoveryType::rec)
        } else {
            None
        }
    }
}

impl Default for DiscoveryType {
    fn default() -> (r: Self)
        ensures
            r == DiscoveryType::top,
    {
        DiscoveryType::top
    }
}

/// Which recommendations a recommended feed shows.
#[allow(non_camel_case_types)]
#[derive(Clone, Copy, Debug, PartialEq, Eq, Structural)]
pub enum RecommendedType {
    most,
    latest,
}

impl RecommendedType {
    /// The text the catalog knows the value by.
    pub open spec fn text(self) -> Seq<char> {
        match self {
            RecommendedType::most => "most"@,
            RecommendedType::latest => "latest"@,
        }
    }

    /// The value a text stands for, if it stands for one.
    pub open spec fn parsed(s: Seq<char>) -> Option<RecommendedType> {
        if s == "most"@ {
            Some(RecommendedType::most)
        } else if s == "latest"@ {
            Some(RecommendedType::latest)
        } else {
            None
        }
    }

    pub fn as_str(&self) -> (s: &'static str)
        ensures
            s@ == self.text(),
    {
        match self {
            RecommendedType::most => "most",
            RecommendedType::latest => "latest",
        }
    }

    /// The value's text as an owned string.
    pub fn to_string(&self) -> (s: String)
        ensures
            s@ == self.text(),
    {
        self.as_str().to_owned()
    }

    /// Reads a value from the text the catalog knows it by.
    pub fn parse(s: &str) -> (r: Option<RecommendedType>)
        ensures
            r == RecommendedType::parsed(s@),
    {
        if str_eq(s, "most") {
            Some(RecommendedType::most)
        } else if str_eq(s, "latest") {
            Some(RecommendedType::latest)
        } else {
            None
        }
    }
}

impl Default for RecommendedType {
    fn default() -> (r: Self)
        ensures
            r == RecommendedType::most,
    {
        RecommendedType::most
    }
}

/// The format of the releases in the feed.
#[allow(non_camel_case_types)]
#[derive(Clone, Copy, Debug, PartialEq, Eq, Structural)]
pub enum Format {
    all,
    digital,
    vinyl,
    cd,
    cassette,
}

impl Format {
    /// The text the catalog knows the value by.
    pub open spec fn text(self) -> Seq<char> {
        match self {
            Format::all => "all"@,
            Format::digital => "digital"@,
            Format::vinyl => "vinyl"@,
            Format::cd => "cd"@,
            Format::cassette => "cassette"@,
        }
    }

    /// The value a text stands for, if it stands for one.
    pub open spec fn parsed(s: Seq<char>) -> Option<Format> {
        if s == "all"@ {
            Some(Format::all)
        } else if s == "digital"@ {
            Some(Format::digital)
        } else if s == "vinyl"@ {
            Some(Format::vinyl)
        } else if s == "cd"@ {
            Some(Format::cd)
        } else if s == "cassette"@ {
            Some(Format::cassette)
        } else {
            None
        }
    }

    pub fn as_str(&self) -> (s: &'static str)
        ensures
            s@ == self.text(),
    {
        match self {
            Format::all => "all",
            Format::digital => "digital",
            Format::vinyl => "vinyl",
            Format::cd => "cd",
            Format::cassette => "cassette",
        }
    }

    /// The value's text as an owned string.
    pub fn to_string(&self) -> (s: String)
        ensures
            s@ == self.text(),
    {
        self.as_str().to_owned()
    }

    /// Reads a value from the text the catalog knows it by.
    pub fn parse(s: &str) -> (r: Option<Format>)
        ensures
            r == Format::parsed(s@),
    {
        if str_eq(s, "all") {
            Some(Format::all)
        } else if str_eq(s, "digital") {
            Some(Format::digital)
        } else if str_eq(s, "vinyl") {
            Some(Format::vinyl)
        } else if str_eq(s, "cd") {
            Some(Format::cd)
        } else if str_eq(s, "cassette") {
            Some(Format::cassette)
        } else {
            None
        }
    }
}

impl Default for Format {
    fn default() -> (r: Self)
        ensures
            r == Format::all,
    {
        Format::all
    }
}
/// A parameter of a request: its key and its value.
pub type Pair = (Seq<char>, Seq<char>);

/// The views of a vector of parameters.
pub open spec fn pairs_of(parameters: Seq<(String, String)>) -> Seq<Pair> {
    parameters.map_values(|p: (String, String)| (p.0@, p.1@))
}

/// Where the first parameter with the key stands, if there is one.
pub open spec fn key_position(pairs: Seq<Pair>, key: Seq<char>) -> Option<int>
    decreases pairs.len(),
{
    if pairs.len() == 0 {
        None
    } else if pairs[0].0 == key {
        Some(0)
    } else {
        match key_position(pairs.drop_first(), key) {
            Some(i) => Some(i + 1),
            None => None,
        }
    }
}

/// `key_position` finds the first position that carries the key, and none
/// exactly when no position carries it.
pub proof fn lemma_key_position(pairs: Seq<Pair>, key: Seq<char>)
    ensures
        match key_position(pairs, key) {
            Some(i) => 0 <= i < pairs.len() && pairs[i].0 == key && forall|j: int|
                0 <= j < i ==> (#[trigger] pairs[j]).0 != key,
            None => forall|j: int| 0 <= j < pairs.len() ==> (#[trigger] pairs[j]).0 != key,
        },
    decreases pairs.len(),
{
    if pairs.len() == 0 {
    } else if pairs[0].0 == key {
    } else {
        let rest = pairs.drop_first();
        lemma_key_position(rest, key);
        match key_position(rest, key) {
            Some(i) => {
                assert(pairs[i + 1] == rest[i]);
                assert forall|j: int| 0 <= j < i + 1 implies (#[trigger] pairs[j]).0 != key by {
                    if j > 0 {
                        assert(rest[j - 1] == pairs[j]);
                    }
                }
            },
            None => {
                assert forall|j: int| 0 <= j < pairs.len() implies (#[trigger] pairs[j]).0
                    != key by {
                    if j > 0 {
                        assert(rest[j - 1] == pairs[j]);
                    }
                }
            },
        }
    }
}

/// A request as mathematics: the name of the function and its parameters in
/// the order in which they are written.
pub struct FunctionView {
    pub name: Seq<char>,
    pub parameters: Seq<Pair>,
}

impl FunctionView {
    /// The request with the value of a parameter replaced; a key that the
    /// request does not have changes nothing.
    pub open spec fn updated(self, key: Seq<char>, value: Seq<char>) -> FunctionView {
        match key_position(self.parameters, key) {
            Some(i) => FunctionView {
                name: self.name,
                parameters: self.parameters.update(i, (key, value)),
            },
            None => self,
        }
    }
}

/// The request for a page of the discovery feed: genre, order, page, the
/// sub-genre fields at zero, the format, and the kind of recommendation where
/// the order is by recommendation.
pub open spec fn get_web_view(
    page: u32,
    genre: Option<Genre>,
    discovery_type: Option<DiscoveryType>,
    format: Option<Format>,
    recommended_type: Option<RecommendedType>,
) -> FunctionView {
    let order = discovery_type.unwrap_or(DiscoveryType::top);
    let fixed = seq![
        ("g"@, genre.unwrap_or(Genre::all).text()),
        ("s"@, order.text()),
        ("p"@, decimal(page as nat)),
        ("gn"@, "0"@),
        ("f"@, format.unwrap_or(Format::all).text()),
        ("w"@, "0"@),
    ];
    FunctionView {
        name: "get_web"@,
        parameters: if order == DiscoveryType::rec {
            fixed.push(("r"@, recommended_type.unwrap_or(RecommendedType::most).text()))
        } else {
            fixed
        },
    }
}

/// A request to the catalog: the name of a function and its parameters.
#[derive(Debug)]
pub struct Function {
    name: String,
    parameters: Vec<(String, String)>,
}

impl View for Function {
    type V = FunctionView;

    closed spec fn view(&self) -> FunctionView {
        FunctionView { name: self.name@, parameters: pairs_of(self.parameters@) }
    }
}

impl Clone for Function {
    fn clone(&self) -> (r: Self)
        ensures
            r@ == self@,
    {
        let n = self.parameters.len();
        let mut parameters: Vec<(String, String)> = Vec::new();
        let mut i: usize = 0;
        while i < n
            invariant
                n == self.parameters@.len(),
                i <= n,
                parameters@.len() == i,
                forall|j: int|
                    0 <= j < i ==> (#[trigger] parameters@[j]).0@ == self.parameters@[j].0@
                        && parameters@[j].1@ == self.parameters@[j].1@,
            decreases n - i,
        {
            let pair = &self.parameters[i];
            parameters.push((pair.0.clone(), pair.1.clone()));
            i += 1;
        }
        assert(pairs_of(parameters@) =~= pairs_of(self.parameters@));
        Function { name: self.name.clone(), parameters }
    }
}

impl Default for Function {
    fn default() -> (r: Self)
        ensures
            r@ == (FunctionView { name: Seq::empty(), parameters: Seq::empty() }),
    {
        let r = Function { name: String::new(), parameters: Vec::new() };
        assert(r@.parameters =~= Seq::<Pair>::empty());
        r
    }
}

impl Function {
    /// The name of the function.
    pub fn name(&self) -> (r: &str)
        ensures
            r@ == self@.name,
    {
        self.name.as_str()
    }

    /// The number of parameters.
    pub fn parameter_count(&self) -> (n: usize)
        ensures
            n == self@.parameters.len(),
    {
        self.parameters.len()
    }

    /// The value of a parameter, if the request has the key.
    pub fn parameter(&self, key: &str) -> (r: Option<&str>)
        ensures
            match r {
                Some(value) => key_position(self@.parameters, key@).is_some() && value@
                    == self@.parameters[key_position(self@.parameters, key@).unwrap()].1,
                None => key_position(self@.parameters, key@).is_none(),
            },
    {
        match self.find(key) {
            Some(i) => Some(self.parameters[i].1.as_str()),
            None => None,
        }
    }

    fn find(&self, key: &str) -> (r: Option<usize>)
        ensures
            match r {
                Some(i) => key_position(self@.parameters, key@) == Some(i as int) && i
                    < self.parameters@.len(),
                None => key_position(self@.parameters, key@).is_none(),
            },
    {
        let n = self.parameters.len();
        let mut i: usize = 0;
        while i < n
            invariant
                n == self.parameters@.len(),
                i <= n,
                forall|j: int| 0 <= j < i ==> (#[trigger] self@.parameters[j]).0 != key@,
            decreases n - i,
        {
            if str_eq(self.parameters[i].0.as_str(), key) {
                proof {
                    lemma_key_position(self@.parameters, key@);
                    assert(self@.parameters[i as int].0 == key@);
                }
                return Some(i);
            }
            i += 1;
        }
        proof {
            lemma_key_position(self@.parameters, key@);
        }
        None
    }

    /// Whether the name and every key and value are short and the parameters
    /// are not too many.
    pub fn is_short(&self) -> (r: bool)
        ensures
            r == (short(self@.name) && self@.parameters.len() <= MAX_PARAMETERS && forall|i: int|
                0 <= i < self@.parameters.len() ==> short((#[trigger] self@.parameters[i]).0)
                    && short(self@.parameters[i].1)),
    {
        if !is_short_text(self.name.as_str()) || self.parameters.len() > MAX_PARAMETERS {
            return false;
        }
        let n = self.parameters.len();
        let mut i: usize = 0;
        while i < n
            invariant
                n == self.parameters@.len(),
                i <= n,
                forall|k: int|
                    0 <= k < i ==> short((#[trigger] self@.parameters[k]).0) && short(
                        self@.parameters[k].1,
                    ),
            decreases n - i,
        {
            let pair = &self.parameters[i];
            if !is_short_text(pair.0.as_str()) || !is_short_text(pair.1.as_str()) {
                assert(!(short(self@.parameters[i as int].0) && short(
                    self@.parameters[i as int].1,
                )));
                return false;
            }
            assert(short(self@.parameters[i as int].0) && short(self@.parameters[i as int].1));
            i += 1;
        }
        true
    }

    /// Replaces the value of a parameter. Says whether the request has the
    /// key; without it nothing changes.
    pub fn update(&mut self, key: String, val: String) -> (known: bool)
        ensures
            final(self)@ == old(self)@.updated(key@, val@),
            known == key_position(old(self)@.parameters, key@).is_some(),
    {
        match self.find(key.as_str()) {
            Some(i) => {
                let ghost before = self@;
                self.parameters.set(i, (key, val));
                assert(self@.parameters =~= before.parameters.update(i as int, (key@, val@)));
                true
            },
            None => false,
        }
    }

    /// Sets the page of a request for the discovery feed.
    pub fn update_get_web_page(&mut self, page: u32)
        ensures
            final(self)@ == old(self)@.updated("p"@, decimal(page as nat)),
    {
        self.update(String::from_str("p"), decimal_string(page));
    }

    /// The request for a page of the discovery feed. What is left out takes
    /// its default: every genre, the top order, every format, the most
    /// recommended.
    pub fn get_web(
        page: u32,
        genre: Option<Genre>,
        discovery_type: Option<DiscoveryType>,
        format: Option<Format>,
        recommended_type: Option<RecommendedType>,
    ) -> (r: Self)
        ensures
            r@ == get_web_view(page, genre, discovery_type, format, recommended_type),
    {
        let order = match discovery_type {
            Some(o) => o,
            None => DiscoveryType::top,
        };
        let genre_text = match genre {
            Some(g) => g.to_string(),
            None => Genre::all.to_string(),
        };
        let format_text = match format {
            Some(f) => f.to_string(),
            None => Format::all.to_string(),
        };
        let mut parameters: Vec<(String, String)> = Vec::new();
        parameters.push((String::from_str("g"), genre_text));
        parameters.push((String::from_str("s"), order.to_string()));
        parameters.push((String::from_str("p"), decimal_string(page)));
        parameters.push((String::from_str("gn"), String::from_str("0")));
        parameters.push((String::from_str("f"), format_text));
        parameters.push((String::from_str("w"), String::from_str("0")));
        if order == DiscoveryType::rec {
            let kind = match recommended_type {
                Some(k) => k.to_string(),
                None => RecommendedType::most.to_string(),
            };
            parameters.push((String::from_str("r"), kind));
        }
        let r = Function { name: String::from_str("get_web"), parameters };
        assert(r@.parameters =~= get_web_view(
            page,
            genre,
            discovery_type,
            format,
            recommended_type,
        ).parameters);
        r
    }
}

/// Why a request could not be written.
#[derive(Clone, Copy, Debug, PartialEq, Eq, Structural)]
pub enum QueryError {
    /// The base address is no address.
    Parse,
    /// The base address cannot take a path.
    NotABase,
    /// A text of the request is longer than an address can hold, or the
    /// request has more parameters than one can.
    TooLong,
}

/// The longest text, in bytes, that is written into an address.
pub const MAX_TEXT_BYTES: usize = 0x10_0000;

/// The most parameters that are written into an address.
pub const MAX_PARAMETERS: usize = 256;

/// Whether a text is short enough to be written into an address.
pub open spec fn short(text: Seq<char>) -> bool {
    encode_utf8(text).len() <= MAX_TEXT_BYTES
}

/// Tells whether a text is short enough to be written into an address.
pub fn is_short_text(text: &str) -> (r: bool)
    ensures
        r == short(text@),
{
    text.as_bytes().len() <= MAX_TEXT_BYTES
}

/// Whether a request can be written as an address: the base, the segment and
/// every key and value are short, and the parameters are not too many. The
/// `url` crate counts the bytes of an address in 32 bits; within these limits
/// an address stays below that.
pub open spec fn writable(base: Seq<char>, segment: Seq<char>, pairs: Seq<Pair>) -> bool {
    &&& short(base)
    &&& short(segment)
    &&& pairs.len() <= MAX_PARAMETERS
    &&& forall|i: int| 0 <= i < pairs.len() ==> short((#[trigger] pairs[i]).0) && short(pairs[i].1)
}

/// The address the `url` crate writes for a base, one more path segment and
/// the parameters as the query; `None` where it refuses the base.
pub uninterp spec fn composed_url(base: Seq<char>, segment: Seq<char>, pairs: Seq<Pair>) -> Option<
    Seq<char>,
>;

/// Whether the `url` crate takes a text for an address.
pub uninterp spec fn url_parses(base: Seq<char>) -> bool;

/// Why no address was written: the request cannot be written; or the base
/// was taken for an address but cannot take a path; or it was not taken for
/// an address at all.
pub open spec fn refusal(fits: bool, parses: bool) -> QueryError {
    if !fits {
        QueryError::TooLong
    } else if parses {
        QueryError::NotABase
    } else {
        QueryError::Parse
    }
}

/// `Url::parse`, then `path_segments_mut` and `query_pairs_mut` to add the
/// segment and the parameters. Believed, not proved: the result is the named
/// address; an error comes exactly where there is none, and which error
/// comes goes by whether `Url::parse` took the base. The outside functions
/// panic on an address of four gibibytes or more, which `requires` leaves
/// out.
#[verifier::external_body]
fn compose_url(base: &str, segment: &str, parameters: &Vec<(String, String)>) -> (r: Result<
    String,
    QueryError,
>)
    requires
        writable(base@, segment@, pairs_of(parameters@)),
    ensures
        match r {
            Ok(address) => url_parses(base@) && composed_url(
                base@,
                segment@,
                pairs_of(parameters@),
            ) == Some(address@),
            Err(e) => composed_url(base@, segment@, pairs_of(parameters@)).is_none() && e
                == refusal(true, url_parses(base@)),
        },
{
    let mut url = match Url::parse(base) {
        Ok(url) => url,
        Err(_) => return Err(QueryError::Parse),
    };
    match url.path_segments_mut() {
        Ok(mut segments) => {
            segments.extend([segment]);
        },
        Err(_) => return Err(QueryError::NotABase),
    }
    url.query_pairs_mut()
        .extend_pairs(parameters.iter().map(|p| (p.0.as_str(), p.1.as_str())))
        .finish();
    Ok(url.to_string())
}

/// Why an answer of the catalog was not taken.
#[derive(Clone, Copy, Debug, PartialEq, Eq, Structural)]
pub enum RequestError {
    /// The catalog answered with a status that is no success.
    Status,
    /// The body is not well-formed JSON.
    InvalidJson,
}

/// An endpoint of the catalog.
#[derive(Clone, Copy, Debug)]
pub struct Api<'a> {
    base_url: &'a str,
}

/// The address of the discovery endpoint.
pub open spec fn discover_base() -> Seq<char> {
    "https://bandcamp.com/api/discover/3"@
}

/// The discovery endpoint.
pub fn discover_api() -> (api: Api<'static>)
    ensures
        api.base() == discover_base(),
{
    Api { base_url: "https://bandcamp.com/api/discover/3" }
}

impl<'a> Api<'a> {
    /// The address of the endpoint.
    pub closed spec fn base(&self) -> Seq<char> {
        self.base_url@
    }

    /// An endpoint at the given address.
    pub fn new(base_url: &'a str) -> (api: Self)
        ensures
            api.base() == base_url@,
    {
        Api { base_url }
    }

    /// What comes of writing the address of a request: the address that the
    /// `url` crate composes, or why there is none.
    pub open spec fn query(base: Seq<char>, func: FunctionView) -> Result<Seq<char>, QueryError> {
        let fits = writable(base, func.name, func.parameters);
        match composed_url(base, func.name, func.parameters) {
            Some(address) => if fits && url_parses(base) {
                Ok(address)
            } else {
                Err(refusal(fits, url_parses(base)))
            },
            None => Err(refusal(fits, url_parses(base))),
        }
    }

    /// Writes the address of a request: the endpoint's address, the function
    /// name as one more path segment, and the parameters as the query. A
    /// request that cannot be written gives `TooLong`; an endpoint whose
    /// address is no address gives `Parse`; one whose address cannot take a
    /// path gives `NotABase`.
    pub fn build_query(&self, func: &Function) -> (r: Result<String, QueryError>)
        ensures
            match r {
                Ok(address) => Api::query(self.base(), func@) == Ok::<Seq<char>, QueryError>(
                    address@,
                ),
                Err(e) => Api::query(self.base(), func@) == Err::<Seq<char>, QueryError>(e),
            },
            r.is_err() && writable(self.base(), func@.name, func@.parameters) ==> composed_url(
                self.base(),
                func@.name,
                func@.parameters,
            ).is_none(),
    {
        if !is_short_text(self.base_url) || !func.is_short() {
            return Err(QueryError::TooLong);
        }
        compose_url(self.base_url, func.name.as_str(), &func.parameters)
    }

    /// Takes or refuses an answer of the catalog: the body of a successful
    /// answer is taken if it is well-formed JSON.
    pub fn accept(success: bool, body: String) -> (r: Result<String, RequestError>)
        ensures
            r == Api::accepted(success, body, gjson_valid(body@)),
    {
        if !success {
            return Err(RequestError::Status);
        }
        let valid = json_valid(body.as_str());
        Api::check_body(body, valid)
    }

    /// What becomes of an answer, given whether its body is well-formed.
    pub open spec fn accepted(success: bool, body: String, valid: bool) -> Result<
        String,
        RequestError,
    > {
        if !success {
            Err(RequestError::Status)
        } else if !valid {
            Err(RequestError::InvalidJson)
        } else {
            Ok(body)
        }
    }

    /// Takes the body of a successful answer if it was found well-formed.
    pub fn check_body(body: String, valid: bool) -> (r: Result<String, RequestError>)
        ensures
            r == Api::accepted(true, body, valid),
    {
        if valid {
            Ok(body)
        } else {
            Err(RequestError::InvalidJson)
        }
    }
}

} // verus!
