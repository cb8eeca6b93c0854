use vstd::prelude::*;
use vstd::string::{StringExecFns, StringSliceAdditionalSpecFns, is_ascii};
use vstd::utf8::{encode_utf8, encode_utf8_decode_utf8, encode_utf8_valid_utf8, is_ascii_chars_encode_utf8, is_char_boundary};

verus! {

/// One product listed by the map service center's search.
#[derive(Debug)]
pub struct SearchResultProductEntry {
    pub type_id: String,
    pub subtype_id: String,
    pub name: String,
    /// The service's numeric product id; the name identifies a product better.
    pub id: usize,
    pub effective_date: Option<String>,
    pub filename: Option<String>,
    pub filesize: Option<String>,
}

/// The effective products that a search found, at county and at state level.
#[derive(Debug)]
pub struct SearchResultEffective {
    pub county: Option<Vec<SearchResultProductEntry>>,
    pub state: Option<Vec<SearchResultProductEntry>>,
}

/// The answer of the map service center to a product search.
#[derive(Debug)]
pub struct SearchResults {
    pub effective: SearchResultEffective,
    pub preliminary: Option<Vec<SearchResultProductEntry>>,
}

/// The page that opens a search session, and to which searches are posted.
pub const ADVANCED_SEARCH_URL: &'static str = "https://msc.fema.gov/portal/advanceSearch";

/// The value that the service's own search page posts in its `utf8` field.
pub const UTF8_MARK: &'static str = "\u{e2}\u{153}\u{201c}";

/// The states searched, each with a county of it that the search asks about
/// (two-letter abbreviation, five-digit county FIPS code).
pub open spec fn representative_counties_spec() -> Seq<(Seq<char>, Seq<char>)> {
    seq![("AL"@, "01101"@), ("AR"@, "05029"@)]
}

/// The states searched, each with the county that stands for it.
pub fn representative_counties() -> (r: Vec<(String, String)>)
    ensures
        r.deep_view() == representative_counties_spec(),
{
    let r = vec![
        (String::from_str("AL"), String::from_str("01101")),
        (String::from_str("AR"), String::from_str("05029")),
    ];
    assert(r.deep_view() =~= representative_counties_spec());
    r
}

/// The state FIPS code within a county FIPS code: its first two characters.
pub fn state_code(county: &str) -> (r: String)
    requires
        is_char_boundary(county.spec_bytes(), 2),
    ensures
        encode_utf8(r@) == county.spec_bytes().subrange(0, 2),
        is_ascii(county) ==> r@ == county@.subrange(0, 2),
{
    let (head, _tail) = county.split_at(2);
    let r = head.to_owned();
    proof {
        encode_utf8_valid_utf8(county@);
        if is_ascii(county) {
            let sub = county@.subrange(0, 2);
            assert(county.spec_bytes().len() >= 2);
            is_ascii_chars_encode_utf8(county@);
            assert(vstd::utf8::is_ascii_chars(sub));
            is_ascii_chars_encode_utf8(sub);
            assert(encode_utf8(sub) =~= county.spec_bytes().subrange(0, 2));
            encode_utf8_decode_utf8(sub);
            encode_utf8_decode_utf8(r@);
        }
    }
    r
}


/// The fields of the search form posted for a county, `state` being the
/// county's state FIPS code: the county's community is the county code
/// followed by `C`, and every other field is fixed.
pub open spec fn search_form_spec(state: Seq<char>, county: Seq<char>) -> Seq<(Seq<char>, Seq<char>)> {
    let community = county + "C"@;
    seq![
        ("utf8"@, UTF8_MARK@),
        ("affiliate"@, "fema"@),
        ("query"@, ""@),
        ("selstate"@, state),
        ("selcounty"@, county),
        ("selcommunity"@, community),
        ("jurisdictionkey"@, ""@),
        ("searchedCid"@, community),
        ("searchedDateStart"@, ""@),
        ("searchedDateEnd"@, ""@),
        ("txtstartdate"@, ""@),
        ("txtenddate"@, ""@),
        ("method"@, "search"@),
    ]
}

fn field(name: &str, value: String) -> (r: (String, String))
    ensures
        r.0@ == name@,
        r.1@ == value@,
{
    (String::from_str(name), value)
}

/// The form posted to the advanced search to list the products of the state
/// that `county` (a county FIPS code) lies in.
pub fn state_search_form(county: &str) -> (r: Vec<(String, String)>)
    requires
        is_char_boundary(county.spec_bytes(), 2),
    ensures
        r.len() == 13,
        encode_utf8(r[3].1@) == county.spec_bytes().subrange(0, 2),
        r.deep_view() == search_form_spec(r[3].1@, county@),
        is_ascii(county) ==> r.deep_view() == search_form_spec(county@.subrange(0, 2), county@),
{
    let state = state_code(county);
    let community = String::from_str(county).concat("C");
    let r = vec![
        field("utf8", String::from_str(UTF8_MARK)),
        field("affiliate", String::from_str("fema")),
        field("query", String::new()),
        field("selstate", state),
        field("selcounty", String::from_str(county)),
        field("selcommunity", community.clone()),
        field("jurisdictionkey", String::new()),
        field("searchedCid", community),
        field("searchedDateStart", String::new()),
        field("searchedDateEnd", String::new()),
        field("txtstartdate", String::new()),
        field("txtenddate", String::new()),
        field("method", String::from_str("search")),
    ];
    proof {
        reveal_strlit("");
        assert(r@.len() == 13);
        assert(r.deep_view()[0] == ("utf8"@, UTF8_MARK@));
        assert(r.deep_view()[2] == ("query"@, ""@));
        assert(r.deep_view()[5] == ("selcommunity"@, county@ + "C"@));
        assert(r.deep_view() =~= search_form_spec(r[3].1@, county@));
    }
    r
}

} // verus!
