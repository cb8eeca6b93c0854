use nfhl_util::county::{
    county_inventory_from_captures, county_inventory_from_html, county_inventory_from_links,
    InventoryError, DOWNLOAD_BASE,
};

fn some(s: &str) -> Option<String> {
    Some(s.to_string())
}

#[test]
fn captures_give_entries_under_their_county() {
    let hrefs = vec!["a.zip".to_string(), "b.zip".to_string(), "c.zip".to_string()];
    let groups = vec![
        Some((some("01001"), some("20200101"))),
        None,
        Some((some("01003"), some("20210615"))),
    ];
    let inv = county_inventory_from_captures(&hrefs, &groups);
    assert_eq!(inv.len(), 2);
    let a = inv.get(&"01001".to_string()).unwrap();
    assert_eq!(a.effective_file_url, "https://hazards.fema.gov/femaportal/NFHL/a.zip");
    assert_eq!(a.effective_file_date, "20200101");
    assert_eq!(a.preliminary_file_url, "");
    let c = inv.get(&"01003".to_string()).unwrap();
    assert_eq!(c.effective_file_url, "https://hazards.fema.gov/femaportal/NFHL/c.zip");
    assert_eq!(c.effective_file_date, "20210615");
}

#[test]
fn captures_with_absent_groups_use_empty_text() {
    let hrefs = vec!["x".to_string()];
    let groups = vec![Some((None, None))];
    let inv = county_inventory_from_captures(&hrefs, &groups);
    assert_eq!(inv.len(), 1);
    let e = inv.get(&String::new()).unwrap();
    assert_eq!(e.effective_file_url, format!("{}x", DOWNLOAD_BASE));
    assert_eq!(e.effective_file_date, "");
}

#[test]
fn later_capture_of_same_county_wins() {
    let hrefs = vec!["old".to_string(), "new".to_string()];
    let groups = vec![Some((some("12086"), some("1"))), Some((some("12086"), some("2")))];
    let inv = county_inventory_from_captures(&hrefs, &groups);
    assert_eq!(inv.len(), 1);
    assert_eq!(inv.get(&"12086".to_string()).unwrap().effective_file_date, "2");
}

#[test]
fn links_are_matched_against_the_file_name_pattern() {
    let links = vec![
        Some(some("Download?fileName=01001C_20200101.zip")),
        None,
        Some(some("Download?fileName=48201c_20191018.zip")),
        Some(some("help.html")),
    ];
    let inv = county_inventory_from_links(&links).unwrap();
    assert_eq!(inv.len(), 2);
    let a = inv.get(&"01001".to_string()).unwrap();
    assert_eq!(
        a.effective_file_url,
        "https://hazards.fema.gov/femaportal/NFHL/Download?fileName=01001C_20200101.zip"
    );
    assert_eq!(a.effective_file_date, "20200101");
    assert_eq!(inv.get(&"48201".to_string()).unwrap().effective_file_date, "20191018");
}

#[test]
fn no_links_give_an_empty_inventory() {
    let links: Vec<Option<Option<String>>> = vec![None, None];
    assert_eq!(county_inventory_from_links(&links).unwrap().len(), 0);
}

#[test]
fn link_without_address_is_an_error() {
    let links = vec![Some(some("Download?fileName=01001C_20200101.zip")), Some(None)];
    assert_eq!(county_inventory_from_links(&links).err(), Some(InventoryError::MissingLinkAttribute));
}

#[test]
fn result_page_gives_county_inventory() {
    let body = "<html><body><table>\
        <thead><tr><th><a href=\"sort?fileName=99999C_1.zip\">Name</a></th></tr></thead>\
        <tbody>\
        <tr><td>Autauga</td><td><a href=\"Download?fileName=01001C_20200101.zip\">zip</a> <a href=\"other\">x</a></td></tr>\
        <tr><td>No file</td></tr>\
        <tr><td>Harris</td><td><a href=\"Download?fileName=48201C_20191018.zip\">zip</a></td></tr>\
        <tr><td>Misc</td><td><a href=\"notes.pdf\">notes</a></td></tr>\
        </tbody></table></body></html>";
    let inv = county_inventory_from_html(body).unwrap();
    assert_eq!(inv.len(), 2);
    assert!(inv.get(&"99999".to_string()).is_none());
    let a = inv.get(&"01001".to_string()).unwrap();
    assert_eq!(
        a.effective_file_url,
        "https://hazards.fema.gov/femaportal/NFHL/Download?fileName=01001C_20200101.zip"
    );
    assert_eq!(a.effective_file_date, "20200101");
    assert_eq!(inv.get(&"48201".to_string()).unwrap().effective_file_date, "20191018");
}

#[test]
fn result_page_without_table_gives_empty_inventory() {
    let inv = county_inventory_from_html("<html><body><p>No results</p></body></html>").unwrap();
    assert_eq!(inv.len(), 0);
}

#[test]
fn result_page_link_without_address_is_an_error() {
    let body = "<table><tbody><tr><td><a name=\"x\">zip</a></td></tr></tbody></table>";
    assert_eq!(county_inventory_from_html(body).err(), Some(InventoryError::MissingLinkAttribute));
}
