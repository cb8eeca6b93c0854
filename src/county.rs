use vstd::prelude::*;
use vstd::string::StringExecFns;
use crate::inventory::{EntryModel, Inventory, InventoryEntry, effective_only};

verus! {

/// The page that lists the NFHL data file of every county.
pub const RESULT_PAGE_URL: &'static str = "https://hazards.fema.gov/femaportal/NFHL/searchResult";

/// The rows of the county result table.
pub const ROW_SELECTOR: &'static str = "tbody tr";

/// The link inside a row that points at the row's data file.
pub const LINK_SELECTOR: &'static str = "a";

/// The link attribute that holds the file's address.
pub const LINK_ATTRIBUTE: &'static str = "href";

/// A file link names the county's FIPS code and the effective date:
/// `fileName=<fips>C_<date>.zip`.
pub const FILE_NAME_PATTERN: &'static str = "fileName=(.+?)[cC]_(.+?).zip";

/// File links in the result table are relative to this address.
pub const DOWNLOAD_BASE: &'static str = "https://hazards.fema.gov/femaportal/NFHL/";

/// Why a county inventory could not be built.
#[derive(Debug, Clone, Copy, PartialEq, Eq)]
pub enum InventoryError {
    /// The HTML parser rejected one of the table selectors.
    InvalidSelector,
    /// The regular expression engine rejected the file-name pattern.
    InvalidPattern,
    /// A row's first link has no address attribute.
    MissingLinkAttribute,
}

/// What the first link of a table row carries: `None` when the row has no
/// link, `Some(None)` when the link has no address attribute.
pub type RowLink = Option<Option<String>>;

/// What the file-name pattern found in one link: `None` when it did not
/// match, else the texts of its two capture groups.
pub type Groups = Option<(Option<String>, Option<String>)>;

/// Whether scraper's `Selector::parse` accepts this selector text.
pub uninterp spec fn selector_accepted(selector: Seq<char>) -> bool;

/// For each element of the parsed document that matches the `rows` selector,
/// in document order: `None` when no descendant matches `links`, else the
/// value of `attribute` on the first descendant that does.
pub uninterp spec fn row_link_attributes_of(
    body: Seq<char>,
    rows: Seq<char>,
    links: Seq<char>,
    attribute: Seq<char>,
) -> Seq<Option<Option<Seq<char>>>>;

/// Whether regex's `Regex::new` accepts this pattern.
pub uninterp spec fn pattern_accepted(pattern: Seq<char>) -> bool;

/// What regex's `Regex::captures` finds in `text`: `None` when the pattern
/// does not match, else the texts of capture groups 1 and 2.
pub uninterp spec fn two_groups_of(pattern: Seq<char>, text: Seq<char>) -> Option<
    (Option<Seq<char>>, Option<Seq<char>>),
>;

/// Relies on scraper 0.13: `Selector::parse` on `rows` and `links`,
/// `Html::parse_document` on `body`, `Html::select` for the rows in document
/// order, `ElementRef::select` for the first link of each row and
/// `Element::attr` for that link's attribute.
#[verifier::external_body]
fn row_link_attributes(body: &str, rows: &str, links: &str, attribute: &str) -> (r: Option<Vec<RowLink>>)
    ensures
        r.is_some() == (selector_accepted(rows@) && selector_accepted(links@)),
        r.is_some() ==> r.unwrap().deep_view() == row_link_attributes_of(body@, rows@, links@, attribute@),
{
    let row_selector = scraper::Selector::parse(rows).ok()?;
    let link_selector = scraper::Selector::parse(links).ok()?;
    let document = scraper::Html::parse_document(body);
    let found = document.select(&row_selector).map(
        |row| row.select(&link_selector).next().map(|a| a.value().attr(attribute).map(String::from)),
    );
    Some(found.collect())
}

/// Relies on regex 1: `Regex::new` on `pattern`, then `Regex::captures` on
/// each text, with the texts of capture groups 1 and 2.
#[verifier::external_body]
fn two_groups_each(pattern: &str, texts: &Vec<String>) -> (r: Option<Vec<Groups>>)
    ensures
        r.is_some() == pattern_accepted(pattern@),
        r.is_some() ==> r.unwrap().len() == texts.len(),
        r.is_some() ==> forall|i: int| 0 <= i < texts.len() ==> #[trigger] r.unwrap()[i].deep_view() == two_groups_of(pattern@, texts[i]@),
{
    let re = regex::Regex::new(pattern).ok()?;
    let text = |m: regex::Match| m.as_str().to_string();
    Some(texts.iter().map(|t| re.captures(t).map(|c| (c.get(1).map(text), c.get(2).map(text)))).collect())
}

/// The text of a capture group; empty when the group took no part.
pub open spec fn group_text(group: Option<Seq<char>>) -> Seq<char> {
    match group {
        Some(t) => t,
        None => Seq::empty(),
    }
}

/// The county key that a matched link is filed under.
pub open spec fn county_key(groups: (Option<Seq<char>>, Option<Seq<char>>)) -> Seq<char> {
    group_text(groups.0)
}

/// The entry that a matched link stands for.
pub open spec fn county_entry(href: Seq<char>, groups: (Option<Seq<char>>, Option<Seq<char>>)) -> EntryModel {
    effective_only(DOWNLOAD_BASE@ + href, group_text(groups.1))
}

/// The inventory built from the first `n` links and what the file-name
/// pattern found in each; a later link with the same county replaces an
/// earlier one.
pub open spec fn captures_inventory(
    hrefs: Seq<Seq<char>>,
    groups: Seq<Option<(Option<Seq<char>>, Option<Seq<char>>)>>,
    n: nat,
) -> Map<Seq<char>, EntryModel>
    decreases n,
{
    if n == 0 {
        Map::empty()
    } else {
        let m = captures_inventory(hrefs, groups, (n - 1) as nat);
        match groups[n - 1] {
            Some(g) => m.insert(county_key(g), county_entry(hrefs[n - 1], g)),
            None => m,
        }
    }
}

/// Builds the county inventory from the links of the result table and what the
/// file-name pattern found in each of them (`groups[i]` for `hrefs[i]`).
pub fn county_inventory_from_captures(
    hrefs: &Vec<String>,
    groups: &Vec<Groups>,
) -> (r: Inventory)
    requires
        hrefs.len() == groups.len(),
    ensures
        r.wf(),
        r@ == captures_inventory(hrefs.deep_view(), groups.deep_view(), hrefs.len() as nat),
{
    let mut inv = Inventory::new();
    let mut i: usize = 0;
    while i < hrefs.len()
        invariant
            hrefs.len() == groups.len(),
            i <= hrefs.len(),
            inv.wf(),
            inv@ == captures_inventory(hrefs.deep_view(), groups.deep_view(), i as nat),
        decreases hrefs.len() - i,
    {
        proof {
            assert(hrefs.deep_view()[i as int] == hrefs[i as int]@);
            assert(groups.deep_view()[i as int] == groups[i as int].deep_view());
        }
        match &groups[i] {
            Some((county, date)) => {
                let key = match county {
                    Some(t) => t.clone(),
                    None => String::new(),
                };
                let date = match date {
                    Some(t) => t.clone(),
                    None => String::new(),
                };
                let url = String::from_str(DOWNLOAD_BASE).concat(hrefs[i].as_str());
                inv.insert(key, InventoryEntry::effective(url, date));
            },
            None => {},
        }
        i = i + 1;
    }
    inv
}


/// Whether some row's first link lacks its address attribute.
pub open spec fn has_link_without_attribute(links: Seq<Option<Option<Seq<char>>>>) -> bool {
    exists|i: int| 0 <= i < links.len() && links[i] == Some(None::<Seq<char>>)
}

/// The addresses of the rows' first links, in row order, leaving out rows
/// with no link.
pub open spec fn linked_hrefs(links: Seq<Option<Option<Seq<char>>>>) -> Seq<Seq<char>>
    decreases links.len(),
{
    if links.len() == 0 {
        Seq::empty()
    } else {
        let rest = linked_hrefs(links.drop_last());
        match links.last() {
            Some(Some(h)) => rest.push(h),
            _ => rest,
        }
    }
}

/// The county inventory that the rows' first links give, or the reason
/// there is none.
pub open spec fn county_inventory_of_links(links: Seq<Option<Option<Seq<char>>>>) -> Result<
    Map<Seq<char>, EntryModel>,
    InventoryError,
> {
    if has_link_without_attribute(links) {
        Err(InventoryError::MissingLinkAttribute)
    } else if !pattern_accepted(FILE_NAME_PATTERN@) {
        Err(InventoryError::InvalidPattern)
    } else {
        let hrefs = linked_hrefs(links);
        let groups = hrefs.map_values(|h: Seq<char>| two_groups_of(FILE_NAME_PATTERN@, h));
        Ok(captures_inventory(hrefs, groups, hrefs.len()))
    }
}

/// Builds the county inventory from the first link of each row of the result
/// table.
pub fn county_inventory_from_links(links: &Vec<RowLink>) -> (r: Result<Inventory, InventoryError>)
    ensures
        r matches Ok(inv) ==> inv.wf() && county_inventory_of_links(links.deep_view()) == Ok::<_, InventoryError>(inv@),
        r matches Err(e) ==> county_inventory_of_links(links.deep_view()) == Err::<Map<Seq<char>, EntryModel>, _>(e),
{
    let ghost lv = links.deep_view();
    let mut hrefs: Vec<String> = Vec::new();
    let mut i: usize = 0;
    while i < links.len()
        invariant
            lv == links.deep_view(),
            i <= links.len(),
            !has_link_without_attribute(lv.take(i as int)),
            hrefs.deep_view() == linked_hrefs(lv.take(i as int)),
        decreases links.len() - i,
    {
        proof {
            assert(lv.take(i + 1).drop_last() =~= lv.take(i as int));
            assert(lv.take(i + 1).last() == lv[i as int]);
            assert(lv[i as int] == links[i as int].deep_view());
        }
        match &links[i] {
            Some(Some(h)) => {
                let ghost before = hrefs.deep_view();
                hrefs.push(h.clone());
                proof {
                    assert(hrefs.deep_view() =~= before.push(h@));
                }
            },
            Some(None) => {
                proof {
                    assert(lv.take(i + 1)[i as int] == Some(None::<Seq<char>>));
                }
                return Err(InventoryError::MissingLinkAttribute);
            },
            None => {},
        }
        proof {
            assert forall|j: int| 0 <= j < i + 1 implies #[trigger] lv.take(i + 1)[j] != Some(None::<Seq<char>>) by {
                if j < i {
                    assert(lv.take(i + 1)[j] == lv.take(i as int)[j]);
                }
            }
        }
        i = i + 1;
    }
    proof {
        assert(lv.take(i as int) =~= lv);
    }
    match two_groups_each(FILE_NAME_PATTERN, &hrefs) {
        Some(groups) => {
            let ghost hv = hrefs.deep_view();
            proof {
                assert(groups.deep_view() =~= hv.map_values(|h: Seq<char>| two_groups_of(FILE_NAME_PATTERN@, h)));
            }
            Ok(county_inventory_from_captures(&hrefs, &groups))
        },
        None => Err(InventoryError::InvalidPattern),
    }
}


/// The county inventory that an NFHL search result page gives, or the reason
/// there is none.
pub open spec fn county_inventory_of_page(body: Seq<char>) -> Result<Map<Seq<char>, EntryModel>, InventoryError> {
    if !selector_accepted(ROW_SELECTOR@) || !selector_accepted(LINK_SELECTOR@) {
        Err(InventoryError::InvalidSelector)
    } else {
        county_inventory_of_links(row_link_attributes_of(body, ROW_SELECTOR@, LINK_SELECTOR@, LINK_ATTRIBUTE@))
    }
}

/// Builds the county inventory from the HTML of the NFHL search result page:
/// each table row whose first link names a county file contributes that
/// county's file address and effective date.
pub fn county_inventory_from_html(body: &str) -> (r: Result<Inventory, InventoryError>)
    ensures
        r matches Ok(inv) ==> inv.wf() && county_inventory_of_page(body@) == Ok::<_, InventoryError>(inv@),
        r matches Err(e) ==> county_inventory_of_page(body@) == Err::<Map<Seq<char>, EntryModel>, _>(e),
{
    match row_link_attributes(body, ROW_SELECTOR, LINK_SELECTOR, LINK_ATTRIBUTE) {
        Some(links) => county_inventory_from_links(&links),
        None => Err(InventoryError::InvalidSelector),
    }
}

} // verus!
