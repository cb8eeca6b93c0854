use nfhl_util::search::{representative_counties, state_code, state_search_form, UTF8_MARK};

#[test]
fn representative_county_table() {
    let t = representative_counties();
    assert_eq!(
        t,
        vec![
            ("AL".to_string(), "01101".to_string()),
            ("AR".to_string(), "05029".to_string()),
        ]
    );
}

#[test]
fn state_code_is_first_two_characters() {
    assert_eq!(state_code("01101"), "01");
    assert_eq!(state_code("05029"), "05");
    assert_eq!(state_code("72"), "72");
}

#[test]
fn search_form_for_a_county() {
    let form = state_search_form("05029");
    let expected: Vec<(&str, &str)> = vec![
        ("utf8", "\u{e2}\u{153}\u{201c}"),
        ("affiliate", "fema"),
        ("query", ""),
        ("selstate", "05"),
        ("selcounty", "05029"),
        ("selcommunity", "05029C"),
        ("jurisdictionkey", ""),
        ("searchedCid", "05029C"),
        ("searchedDateStart", ""),
        ("searchedDateEnd", ""),
        ("txtstartdate", ""),
        ("txtenddate", ""),
        ("method", "search"),
    ];
    assert_eq!(form.len(), expected.len());
    for (got, want) in form.iter().zip(expected.iter()) {
        assert_eq!(got.0, want.0);
        assert_eq!(got.1, want.1);
    }
    assert_eq!(form[0].1, UTF8_MARK);
}

#[test]
fn every_representative_county_lies_in_a_state_with_a_form() {
    for (state, county) in representative_counties() {
        let form = state_search_form(&county);
        assert_eq!(form[3].1, county[..2].to_string(), "state {}", state);
        assert_eq!(form[4].1, county);
    }
}
