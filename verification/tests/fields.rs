use opord_parse::opord_parser::{
    found_location, found_mission, found_uod, get_location, get_name, get_uod, get_week,
};
use opord_parse::parser_error::OpordParserError;

#[test]
fn test_get_uod() {
    assert_eq!(
        "White Shirt/Blues",
        get_uod(&"	GMC: White Shirt/Blues".to_string())
    );

    assert_eq!("CITS", get_uod(&"	GMC & POC: CITS".to_string()));
}

#[test]
fn test_found_location() {
    assert!(found_location(&"	d. Main Location".to_string()));
    assert!(!found_location(&"POC: Blues".to_string()));
}

#[test]
fn test_get_name() {
    assert_eq!(
        "Joint Leadership Laboratory",
        get_name(&"	Week 1/ Joint Leadership Laboratory".to_string()).unwrap()
    )
}

#[test]
fn test_get_location() {
    assert_eq!(
        "Torg 2150",
        get_location(&"	Main Location: Torg 2150".to_string()).unwrap()
    );
}

#[test]
fn test_found_uod() {
    assert!(found_uod("	c. UOD"));
    assert!(!found_uod("	24 Aug 2021/1530-1645"))
}

#[test]
fn mission_heading_is_compared_as_it_stands() {
    assert!(found_mission("1. Mission"));
    assert!(!found_mission(" 1. Mission"));
    assert!(!found_mission("1. Mission "));
    assert!(!found_mission("1. Missio"));
    assert!(!found_mission(""));
    assert!(!found_mission("1. Mission statement"));
}

#[test]
fn headings_are_trimmed_of_any_white_space() {
    assert!(found_uod("c. UOD"));
    assert!(found_uod(" \t c. UOD \u{a0}\u{3000}"));
    assert!(found_uod("\u{2003}c. UOD\u{85}"));
    assert!(!found_uod("c. UOD:"));
    assert!(!found_uod("c.UOD"));
    assert!(!found_uod("xc. UOD"));
    assert!(found_location("d. Main Location"));
    assert!(found_location("\u{1680}d. Main Location\u{2028}"));
    assert!(!found_location("d. Main Location:"));
    assert!(!found_location("\u{200b}d. Main Location"));
}

#[test]
fn name_without_week_is_the_trimmed_line() {
    assert_eq!("Picnic", get_name("  Picnic \t").unwrap());
    assert_eq!("Pic/nic", get_name("Pic/nic").unwrap());
    assert_eq!("", get_name("   ").unwrap());
    assert_eq!("", get_name("").unwrap());
    assert_eq!("The Week 3/ Picnic", get_name("The Week 3/ Picnic").unwrap());
}

#[test]
fn name_behind_the_first_slash() {
    assert_eq!(
        "Monday/Tuesday Physical Training",
        get_name("Week 2 / Monday/Tuesday Physical Training").unwrap()
    );
    assert_eq!("", get_name("Week 2/").unwrap());
    assert_eq!("", get_name("Week 2/   ").unwrap());
    assert_eq!("GMC Lab", get_name("Weekend/GMC Lab").unwrap());
}

#[test]
fn name_with_week_and_no_slash_is_refused() {
    assert_eq!(
        Err(OpordParserError::WeekMisionNameParseFail(
            "Week 1 Joint Leadership Laboratory".to_string()
        )),
        get_name("\t Week 1 Joint Leadership Laboratory  ")
    );
    assert_eq!(
        Err(OpordParserError::WeekMisionNameParseFail("Week".to_string())),
        get_name("Week")
    );
}

#[test]
fn uod_without_colon_is_the_trimmed_line() {
    assert_eq!("OCPs", get_uod("  OCPs  "));
    assert_eq!("", get_uod(""));
    assert_eq!("AF PTGs / VTCC PT Gear", get_uod("\tAF PTGs / VTCC PT Gear"));
}

#[test]
fn uod_behind_the_first_colon() {
    assert_eq!("OCPs; POC: Blues", get_uod("GMC: OCPs; POC: Blues"));
    assert_eq!("", get_uod("GMC:"));
    assert_eq!("x", get_uod(":x"));
    assert_eq!("\u{e9}t\u{e9}", get_uod("\u{3000}t\u{ea}te: \u{e9}t\u{e9}\u{a0}"));
}

#[test]
fn location_label_is_optional() {
    assert_eq!("Drillfield", get_location("  Drillfield ").unwrap());
    assert_eq!("", get_location("").unwrap());
    assert_eq!("Main Location Torg", get_location("Main Location Torg").unwrap());
}

#[test]
fn location_behind_the_label() {
    assert_eq!("Torg 2150", get_location("Main Location:Torg 2150").unwrap());
    assert_eq!(
        "Torg 2150",
        get_location("d. Main Location:   Torg 2150  ").unwrap()
    );
    assert_eq!("", get_location("Main Location:").unwrap());
    assert_eq!(
        "A Main Location: B",
        get_location("Main Location: A Main Location: B").unwrap()
    );
}

#[test]
fn week_of_the_heading_line() {
    assert_eq!(
        Some(Ok(1)),
        get_week("\tWeek 1/ Joint Leadership Laboratory")
    );
    assert_eq!(Some(Ok(12)), get_week("Week 12 / Picnic"));
    assert_eq!(Some(Ok(255)), get_week("Week 255/ Picnic"));
    assert_eq!(Some(Ok(7)), get_week("Week +7/ Picnic"));
    assert_eq!(Some(Ok(7)), get_week("Week 007/ Picnic"));
    assert_eq!(Some(Ok(0)), get_week("Week 0/"));
    assert_eq!(Some(Ok(3)), get_week("OPORD 3/Week"));
}

#[test]
fn line_that_is_no_week_heading() {
    assert_eq!(None, get_week("1. Mission"));
    assert_eq!(None, get_week(""));
    assert_eq!(None, get_week("week 1/ Picnic"));
    assert_eq!(None, get_week("Week 1 Picnic"));
    assert_eq!(None, get_week("Week1/Picnic"));
    assert_eq!(None, get_week(" Week1/Picnic "));
}

#[test]
fn week_text_that_is_no_number() {
    assert_eq!(
        Some(Err(OpordParserError::InvalidWeekNumber("One".to_string()))),
        get_week("Week One/ Picnic")
    );
    assert_eq!(
        Some(Err(OpordParserError::InvalidWeekNumber("256".to_string()))),
        get_week("Week 256/ Picnic")
    );
    assert_eq!(
        Some(Err(OpordParserError::InvalidWeekNumber(
            "99999999999999999999999".to_string()
        ))),
        get_week("Week 99999999999999999999999/ Picnic")
    );
    assert_eq!(
        Some(Err(OpordParserError::InvalidWeekNumber("-1".to_string()))),
        get_week("Week -1/ Picnic")
    );
    assert_eq!(
        Some(Err(OpordParserError::InvalidWeekNumber("+".to_string()))),
        get_week("Week +/ Picnic")
    );
    assert_eq!(
        Some(Err(OpordParserError::InvalidWeekNumber("1 2".to_string()))),
        get_week("Week 1 2/ Picnic")
    );
    assert_eq!(
        Some(Err(OpordParserError::InvalidWeekNumber("".to_string()))),
        get_week("Week / Picnic")
    );
    assert_eq!(
        Some(Err(OpordParserError::InvalidWeekNumber("\u{661}".to_string()))),
        get_week("Week \u{661}/ Picnic")
    );
}

#[test]
fn slash_before_the_space_leaves_no_week_text() {
    assert_eq!(
        Some(Err(OpordParserError::InvalidWeekNumber("".to_string()))),
        get_week("Week1/ Picnic")
    );
}
