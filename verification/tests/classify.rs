use opord_parse::activity::{ActivityDetails, ActivityType, LabAudience, PTDay};
use opord_parse::opord_parser::{get_location, get_name, get_uod, parse_activity};
use opord_parse::parser_error::OpordParserError;

#[test]
fn joint_laboratory_from_its_lines() {
    let name = get_name("Joint Leadership Laboratory").unwrap();
    let uod = get_uod("GMC & POC: CITS");
    let location = get_location("Main Location: Torg 2150").unwrap();
    assert_eq!(
        Ok(ActivityType::LLAB(
            LabAudience::Joint,
            ActivityDetails::new("Torg 2150", "CITS")
        )),
        parse_activity(name, uod, location)
    );
}

#[test]
fn monday_tuesday_training() {
    assert_eq!(
        Ok(ActivityType::PT(
            PTDay::MT,
            ActivityDetails::new("Drillfield", "OCPs")
        )),
        parse_activity("Monday/Tuesday Physical Training", "OCPs", "Drillfield")
    );
}

#[test]
fn wednesday_thursday_training() {
    assert_eq!(
        Ok(ActivityType::PT(
            PTDay::WTH,
            ActivityDetails::new("Drillfield", "PTGs")
        )),
        parse_activity("Wednesday/Thursday Physical Training", "PTGs", "Drillfield")
    );
}

#[test]
fn remedial_training_anywhere_in_the_name() {
    assert_eq!(
        Ok(ActivityType::PT(
            PTDay::Remedial,
            ActivityDetails::new("Gym", "PTGs")
        )),
        parse_activity("Friday Remedial Physical Training", "PTGs", "Gym")
    );
    assert_eq!(
        Ok(ActivityType::PT(
            PTDay::Remedial,
            ActivityDetails::new("Gym", "PTGs")
        )),
        parse_activity("Physical Training (Remedial)", "PTGs", "Gym")
    );
    assert_eq!(
        Ok(ActivityType::PT(PTDay::MT, ActivityDetails::new("Gym", "PTGs"))),
        parse_activity("Monday/Tuesday Remedial Physical Training", "PTGs", "Gym")
    );
}

#[test]
fn make_up_laboratory_whatever_the_audience() {
    let details = || ActivityDetails::new("Mil Bldg", "Blues");
    assert_eq!(
        Ok(ActivityType::MULLAB(details())),
        parse_activity("Make-Up Leadership Laboratory", "Blues", "Mil Bldg")
    );
    assert_eq!(
        Ok(ActivityType::MULLAB(details())),
        parse_activity("Make Up Leadership Laboratory", "Blues", "Mil Bldg")
    );
    assert_eq!(
        Ok(ActivityType::MULLAB(details())),
        parse_activity("Make-Up GMC Joint POC Leadership Laboratory", "Blues", "Mil Bldg")
    );
    assert_eq!(
        Ok(ActivityType::MULLAB(details())),
        parse_activity(
            "Make Up Leadership Laboratory and Physical Training",
            "Blues",
            "Mil Bldg"
        )
    );
}

#[test]
fn laboratory_by_audience() {
    assert_eq!(
        Ok(ActivityType::LLAB(
            LabAudience::GMC,
            ActivityDetails::new("Torg", "OCPs")
        )),
        parse_activity("GMC Leadership Laboratory", "OCPs", "Torg")
    );
    assert_eq!(
        Ok(ActivityType::LLAB(
            LabAudience::POC,
            ActivityDetails::new("Torg", "OCPs")
        )),
        parse_activity("POC Leadership Laboratory", "OCPs", "Torg")
    );
    assert_eq!(
        Ok(ActivityType::LLAB(
            LabAudience::Joint,
            ActivityDetails::new("Torg", "OCPs")
        )),
        parse_activity("Joint Leadership Laboratory", "OCPs", "Torg")
    );
}

#[test]
fn laboratory_rule_comes_before_training_rule() {
    assert_eq!(
        Ok(ActivityType::LLAB(
            LabAudience::GMC,
            ActivityDetails::new("Torg", "OCPs")
        )),
        parse_activity("GMC Physical Training Leadership Laboratory", "OCPs", "Torg")
    );
    assert_eq!(
        Err(OpordParserError::InvalidLLABAudience(
            "Monday/Tuesday Physical Training Leadership Laboratory".to_string()
        )),
        parse_activity(
            "Monday/Tuesday Physical Training Leadership Laboratory",
            "OCPs",
            "Torg"
        )
    );
}

#[test]
fn laboratory_without_audience_is_refused() {
    assert_eq!(
        Err(OpordParserError::InvalidLLABAudience(
            "Leadership Laboratory".to_string()
        )),
        parse_activity("Leadership Laboratory", "OCPs", "Torg")
    );
    assert_eq!(
        Err(OpordParserError::InvalidLLABAudience(
            "The GMC Leadership Laboratory".to_string()
        )),
        parse_activity("The GMC Leadership Laboratory", "OCPs", "Torg")
    );
    assert_eq!(
        Err(OpordParserError::InvalidLLABAudience(
            "make-up Leadership Laboratory".to_string()
        )),
        parse_activity("make-up Leadership Laboratory", "OCPs", "Torg")
    );
}

#[test]
fn training_without_day_is_refused() {
    assert_eq!(
        Err(OpordParserError::InvalidPTDay(
            "Physical Training".to_string()
        )),
        parse_activity("Physical Training", "PTGs", "Gym")
    );
    assert_eq!(
        Err(OpordParserError::InvalidPTDay(
            "Friday Physical Training".to_string()
        )),
        parse_activity("Friday Physical Training", "PTGs", "Gym")
    );
}

#[test]
fn name_without_keyword_is_unknown() {
    assert_eq!(
        Ok(ActivityType::Unknown(ActivityDetails::new(
            "Park",
            "CITS"
        ))),
        parse_activity("Picnic", "CITS", "Park")
    );
    assert_eq!(
        Ok(ActivityType::Unknown(ActivityDetails::new("", ""))),
        parse_activity("", "", "")
    );
    assert_eq!(
        Ok(ActivityType::Unknown(ActivityDetails::new("b", "a"))),
        parse_activity("GMC leadership laboratory", "a", "b")
    );
    assert_eq!(
        Ok(ActivityType::Unknown(ActivityDetails::new("b", "a"))),
        parse_activity("Monday/Tuesday Physical Trainin", "a", "b")
    );
}

#[test]
fn details_keep_location_and_uniform() {
    let details = ActivityDetails::new("Torg 2150", "CITS");
    assert_eq!("Torg 2150", details.location());
    assert_eq!("CITS", details.uniform());
    match parse_activity("Picnic", "CITS", "Park").unwrap() {
        ActivityType::Unknown(d) => {
            assert_eq!("Park", d.location());
            assert_eq!("CITS", d.uniform());
        }
        other => panic!("{:?}", other),
    }
}
