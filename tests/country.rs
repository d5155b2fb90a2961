use shared_models::country::Country;

#[test]
fn country_keys() {
    assert_eq!(Country::UnitedKingdom.key(), "en");
    assert_eq!(Country::Poland.key(), "pl");
    assert_eq!(Country::default(), Country::UnitedKingdom);
}

#[test]
fn country_key_round_trip() {
    for c in Country::all() {
        assert_eq!(Country::try_parse(c.key()), Ok(c));
        assert_eq!(Country::try_from_string(c.key().to_string()), Ok(c));
    }
}

#[test]
fn country_unknown_key_is_refused() {
    assert_eq!(Country::try_parse("de"), Err("de"));
    assert_eq!(Country::try_parse(""), Err(""));
    assert_eq!(Country::try_parse("EN"), Err("EN"));
    assert_eq!(Country::try_from_string("eng".to_string()), Err("eng".to_string()));
}

#[test]
fn country_from_browser_languages() {
    let langs = vec!["de-DE".to_string(), "PL-pl".to_string(), "en-GB".to_string()];
    assert_eq!(Country::from_languages(&langs), Country::Poland);
    let langs = vec!["e".to_string(), "en".to_string()];
    assert_eq!(Country::from_languages(&langs), Country::UnitedKingdom);
    let langs = vec!["fr".to_string()];
    assert_eq!(Country::from_languages(&langs), Country::UnitedKingdom);
    assert_eq!(Country::from_languages(&vec![]), Country::UnitedKingdom);
}

#[test]
fn country_names() {
    assert_eq!(Country::UnitedKingdom.name(), "UnitedKingdom");
    assert_eq!(Country::Poland.name(), "Poland");
}

#[test]
fn country_try_from_str() {
    assert_eq!(Country::try_from("pl"), Ok(Country::Poland));
    assert_eq!(Country::try_from("xx"), Err("xx"));
}
