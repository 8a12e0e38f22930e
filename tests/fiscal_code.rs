use chrono::Datelike;
use fiscal_code::{
    born_on, calculate_check_character, calculate_check_character_temporary, canonicalize,
    check_normalized, gender, info, normalized, place_of_birth, validate, validate_or_error,
    BirthDate, FiscalCodeError, Gender, PlaceOfBirth,
    PlaceRegistry,
};

fn place(country_code: &str, country_name: &str, city: Option<&str>, state: Option<&str>) -> PlaceOfBirth {
    PlaceOfBirth {
        country_code: country_code.to_string(),
        country_name: country_name.to_string(),
        city: city.map(|c| c.to_string()),
        state: state.map(|s| s.to_string()),
    }
}

fn registry() -> PlaceRegistry {
    let mut r = PlaceRegistry::new();
    assert!(r.insert("H501", place("IT", "Italia", Some("Roma"), Some("RM"))));
    assert!(r.insert("A783", place("IT", "Italia", Some("Benevento"), Some("BN"))));
    assert!(r.insert("Z104", place("BG", "Bulgaria", None, None)));
    assert!(r.insert("Z122", place("IM", "Isola di Man", None, None)));
    assert!(r.insert("Z219", place("JP", "Giappone", None, None)));
    r
}

fn this_year() -> i32 {
    chrono::Utc::now().year()
}

fn chars(s: &str) -> Vec<char> {
    s.chars().collect()
}

#[test]
fn test_validate() {
    let places = registry();
    assert!(validate("GNTMTT99C27H501F", &places, this_year()));
    assert!(validate("MRARSS80A01H501T", &places, this_year()));
    assert!(validate("BNCLRD69T61A783M", &places, this_year()));
    assert!(validate("FCKTSS05C01Z122F", &places, this_year()));
    assert!(validate("FCKTSS05C01ZMLQH", &places, this_year()));

    assert!(!validate("INVALIDCODE", &places, this_year()));
    assert!(!validate("FCKTSS05C01Z122K", &places, this_year()));
    assert!(!validate("FCKTSS05F01Z122F", &places, this_year()));
    assert!(!validate("FCKTSS05C32Z122F", &places, this_year()));
    assert!(!validate("FCKTSS05C01Z105L", &places, this_year()));
    assert!(!validate("GNTMTT99C72H501Y", &places, this_year()));
}

#[test]
fn test_validate_omocodia() {
    let places = registry();
    assert!(validate("GNTMTT99C27H50MX", &places, this_year()));
    assert!(validate("GNTMTT99C27HR0MS", &places, this_year()));
}

#[test]
fn test_validate_provisional() {
    let places = registry();
    assert!(validate("12345678903", &places, this_year()));
}

#[test]
fn test_validate_empty() {
    let places = registry();
    assert!(!validate("", &places, this_year()));
}

#[test]
fn test_validate_invalid_length() {
    let places = registry();
    assert!(!validate("TOOSHORT", &places, this_year()));
    assert!(!validate("THISCODEISTOOLONGTOBEAVALIDFISCALCODE", &places, this_year()));
}

#[test]
fn test_info() {
    let places = registry();
    let info = info("GNTMTT99C27H501F", &places, this_year());
    assert!(info.is_ok());
    assert_eq!(
        info.as_ref().unwrap().born_on,
        BirthDate { year: 1999, month: 3, day: 27 }
    );
    assert_eq!(info.as_ref().unwrap().gender, Gender::Male);
    assert_eq!(info.as_ref().unwrap().place_of_birth.country_name, "Italia");
    assert_eq!(info.as_ref().unwrap().place_of_birth.country_code, "IT");
    assert_eq!(
        info.as_ref().unwrap().place_of_birth.city,
        Some("Roma".into()),
    );
    assert_eq!(
        info.as_ref().unwrap().place_of_birth.state,
        Some("RM".into()),
    );

    let info = fiscal_code::info("MKSKRS92L65Z219S", &places, this_year());
    assert!(info.is_ok());
    assert_eq!(
        info.as_ref().unwrap().born_on,
        BirthDate { year: 1992, month: 7, day: 25 }
    );
    assert_eq!(info.as_ref().unwrap().gender, Gender::Female);
    assert_eq!(
        info.as_ref().unwrap().place_of_birth.country_name,
        "Giappone"
    );
    assert_eq!(info.as_ref().unwrap().place_of_birth.country_code, "JP");
    assert!(info.as_ref().unwrap().place_of_birth.city.is_none());
    assert!(info.as_ref().unwrap().place_of_birth.state.is_none());
}

#[test]
fn normalization_trims_and_uppercases() {
    assert_eq!(normalized("  gntmtt99c27h501f\t\n"), "GNTMTT99C27H501F");
    assert_eq!(normalized("\u{3000}ab1\u{2029}"), "AB1");
    let places = registry();
    assert!(validate("  gntmtt99c27h501f \n", &places, this_year()));
    for s in ["  gntmtt99c27h501f ", "fcktss05c01z122k", " 12345678903", "x", ""] {
        let plain = validate(s, &places, this_year());
        let again = validate(&normalized(s), &places, this_year());
        assert_eq!(plain, again);
        let upper_then_trim = s.to_uppercase();
        assert_eq!(plain, validate(upper_then_trim.trim(), &places, this_year()));
    }
}

#[test]
fn exactly_one_check_letter_closes_a_body() {
    let places = registry();
    let mut passing = Vec::new();
    for c in 'A'..='Z' {
        let code = format!("GNTMTT99C27H501{}", c);
        match validate_or_error(&code, &places, 2026) {
            Ok(()) => passing.push(c),
            Err(e) => assert_eq!(e, FiscalCodeError::InvalidChecksum),
        }
    }
    assert_eq!(passing, vec!['F']);
}

#[test]
fn omocodia_codes_decode_like_the_plain_code() {
    let places = registry();
    let plain = info("GNTMTT99C27H501F", &places, 2026).unwrap();
    for code in ["GNTMTT99C27H50MX", "GNTMTT99C27HR0MS"] {
        let other = info(code, &places, 2026).unwrap();
        assert_eq!(other.born_on, plain.born_on);
        assert_eq!(other.gender, plain.gender);
        assert_eq!(other.place_of_birth.city, plain.place_of_birth.city);
        assert_eq!(other.place_of_birth.country_code, plain.place_of_birth.country_code);
    }
}

#[test]
fn day_offset_gives_gender() {
    assert_eq!(gender(27), Gender::Male);
    assert_eq!(gender(67), Gender::Female);
    assert_eq!(gender(40), Gender::Male);
    assert_eq!(gender(41), Gender::Female);
    assert_eq!(born_on(99, 'C', 27, 2026), Ok(BirthDate { year: 1999, month: 3, day: 27 }));
    assert_eq!(born_on(99, 'C', 67, 2026), Ok(BirthDate { year: 1999, month: 3, day: 27 }));
    assert_eq!(Gender::Female.symbol(), "F");
    assert_eq!(Gender::Male.symbol(), "M");
}

#[test]
fn century_rule_picks_the_latest_past_year() {
    assert_eq!(born_on(25, 'A', 1, 2026), Ok(BirthDate { year: 2025, month: 1, day: 1 }));
    assert_eq!(born_on(26, 'A', 1, 2026), Ok(BirthDate { year: 1926, month: 1, day: 1 }));
    assert_eq!(born_on(0, 'A', 1, 2026), Ok(BirthDate { year: 2000, month: 1, day: 1 }));
    assert_eq!(born_on(49, 'A', 1, 2049), Ok(BirthDate { year: 1949, month: 1, day: 1 }));
    assert_eq!(born_on(10, 'A', 1, 2050), Ok(BirthDate { year: 2010, month: 1, day: 1 }));
    assert_eq!(born_on(99, 'A', 1, 2050), Ok(BirthDate { year: 1999, month: 1, day: 1 }));
    assert_eq!(born_on(50, 'A', 1, 2050), Ok(BirthDate { year: 1950, month: 1, day: 1 }));
    assert_eq!(born_on(49, 'A', 1, 2050), Ok(BirthDate { year: 2049, month: 1, day: 1 }));
    assert_eq!(born_on(61, 'A', 1, 2060), Ok(BirthDate { year: 1961, month: 1, day: 1 }));
    assert_eq!(born_on(0, 'A', 1, 2000), Ok(BirthDate { year: 1900, month: 1, day: 1 }));
    assert_eq!(born_on(99, 'A', 1, 2000), Ok(BirthDate { year: 1999, month: 1, day: 1 }));
    assert_eq!(born_on(5, 'A', 1, -1950), Ok(BirthDate { year: -1995, month: 1, day: 1 }));
}

#[test]
fn birth_date_errors() {
    assert_eq!(born_on(5, 'F', 1, 2026), Err(FiscalCodeError::InvalidMonth));
    assert_eq!(born_on(5, 'C', 32, 2026), Err(FiscalCodeError::InvalidDay));
    assert_eq!(born_on(5, 'C', 0, 2026), Err(FiscalCodeError::InvalidDay));
    assert_eq!(born_on(5, 'C', 40, 2026), Err(FiscalCodeError::InvalidDay));
    assert_eq!(born_on(5, 'D', 31, 2026), Err(FiscalCodeError::InvalidDate));
    assert_eq!(born_on(5, 'B', 29, 2026), Err(FiscalCodeError::InvalidDate));
    assert_eq!(born_on(4, 'B', 29, 2026), Ok(BirthDate { year: 2004, month: 2, day: 29 }));
    assert_eq!(born_on(0, 'B', 69, 2026), Ok(BirthDate { year: 2000, month: 2, day: 29 }));
}

#[test]
fn each_error_kind_has_an_input() {
    let places = registry();
    let at = |code: &str| validate_or_error(code, &places, 2026);
    assert_eq!(at(""), Err(FiscalCodeError::InvalidLength));
    assert_eq!(at("TOOSHORT"), Err(FiscalCodeError::InvalidLength));
    assert_eq!(at("FCKTSS05C01Z12AB"), Err(FiscalCodeError::InvalidFormat));
    assert_eq!(at("1234567890A"), Err(FiscalCodeError::InvalidFormat));
    assert_eq!(at("FCKTSS05C01Z122K"), Err(FiscalCodeError::InvalidChecksum));
    assert_eq!(at("12345678904"), Err(FiscalCodeError::InvalidChecksum));
    assert_eq!(at("FCKTSS05F01Z122N"), Err(FiscalCodeError::InvalidMonth));
    assert_eq!(at("FCKTSS05C32Z122N"), Err(FiscalCodeError::InvalidDay));
    assert_eq!(at("FCKTSS05D31Z122K"), Err(FiscalCodeError::InvalidDate));
    assert_eq!(at("FCKTSS05B29Z122X"), Err(FiscalCodeError::InvalidDate));
    assert_eq!(at("FCKTSS04B29Z122W"), Ok(()));
    assert_eq!(at("FCKTSS05C01Z105L"), Err(FiscalCodeError::UnknownBirthPlace));
    assert_eq!(at("12345678903"), Ok(()));
    assert!(matches!(
        info("12345678903", &places, 2026),
        Err(FiscalCodeError::UnsupportedOperation)
    ));
    assert!(matches!(
        info("12345678903", &places, this_year()),
        Err(FiscalCodeError::UnsupportedOperation)
    ));
    assert!(matches!(
        info("1234567890A", &places, 2026),
        Err(FiscalCodeError::InvalidLength)
    ));
    assert_eq!(validate_or_error("GNTMTT99C27H501F", &places, this_year()), Ok(()));
    assert_eq!(
        validate_or_error("FCKTSS05C01Z122K", &places, this_year()),
        Err(FiscalCodeError::InvalidChecksum)
    );
}

#[test]
fn check_characters() {
    assert_eq!(calculate_check_character(&chars("GNTMTT99C27H501")), Some('F'));
    assert_eq!(calculate_check_character(&chars("MKSKRS92L65Z219")), Some('S'));
    assert_eq!(calculate_check_character(&chars("GNTMTT99C27HR0M")), Some('S'));
    assert_eq!(calculate_check_character(&chars("")), Some('A'));
    assert_eq!(calculate_check_character(&chars("GNTMTT99C27H50-")), None);
    assert_eq!(calculate_check_character_temporary(&chars("1234567890")), Some('3'));
    assert_eq!(calculate_check_character_temporary(&chars("0000000000")), Some('0'));
    assert_eq!(calculate_check_character_temporary(&chars("9")), Some('1'));
    assert_eq!(calculate_check_character_temporary(&chars("09")), Some('1'));
    assert_eq!(calculate_check_character_temporary(&chars("12345A7890")), None);
}

#[test]
fn canonical_form_and_normalized_check() {
    let places = registry();
    let c = canonicalize(&chars("GNTMTT99C27HR0MS"));
    assert_eq!(c.iter().collect::<String>(), "GNTMTT99C27H501S");
    let c = canonicalize(&chars("LMNPQRSTUVLMNPQR"));
    assert_eq!(c.iter().collect::<String>(), "LMNPQR67U90M234R");
    let c = canonicalize(&chars("GNTMTTVVCLLHRRRV"));
    assert_eq!(c.iter().collect::<String>(), "GNTMTT99C00H555V");
    assert_eq!(check_normalized(&chars("GNTMTT99C27H501F"), &places, 2026), Ok(()));
    assert_eq!(
        check_normalized(&chars("gntmtt99c27h501f"), &places, 2026),
        Err(FiscalCodeError::InvalidFormat)
    );
}

#[test]
fn registry_lookups() {
    let mut places = registry();
    assert_eq!(places.len(), 5);
    assert!(places.contains("H501"));
    assert!(!places.contains("Z105"));
    assert!(!places.contains("H50"));
    assert!(!places.insert("h501", place("IT", "Italia", None, None)));
    assert!(!places.insert("H5O1", place("IT", "Italia", None, None)));
    assert_eq!(places.len(), 5);
    let rome = place_of_birth(&chars("H501"), &places).unwrap();
    assert_eq!(rome.city, Some("Roma".to_string()));
    assert!(matches!(
        place_of_birth(&chars("Z105"), &places),
        Err(FiscalCodeError::UnknownBirthPlace)
    ));
    assert!(places.insert("H501", place("IT", "Italia", Some("Rome"), Some("RM"))));
    assert_eq!(places.len(), 5);
    let rome = places.get_by_key(7501).unwrap();
    assert_eq!(rome.city, Some("Rome".to_string()));
    assert!(places.get_by_key(7502).is_none());
    assert_eq!(places.get("Z219").unwrap().country_name, "Giappone");
    assert!(places.get("Z105").is_none());
    assert!(places.get("z219").is_none());
}
