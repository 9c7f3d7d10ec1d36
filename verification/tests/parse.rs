use opord_parse::activity::{ActivityDetails, ActivityType, LabAudience, PTDay, ParsedOpord};
use opord_parse::opord_parser::OpordParser;
use opord_parse::parser_error::OpordParserError;

const WEEK_ONE: &str = "OPERATIONS ORDER 21-01
1. Mission
\tWeek 1/ Joint Leadership Laboratory
a. Date/Time
\t24 Aug 2021/1530-1645
c. UOD
\tGMC & POC: White Shirt/Blues
d. Main Location
\tMain Location: Torg 2150

1. Mission
\tWeek 1/ Wednesday/Thursday Physical Training
c. UOD
\tAF PTGs / VTCC PT Gear
d. Main Location
\tDrillfield

1. Mission
\tWeek 1/ Make-Up Leadership Laboratory
\tc. UOD
\tGMC: White Shirt/Blues
\td. Main Location
\tMain Location: Mil Bldg Rom 208

1. Mission
\tPicnic
c. UOD
CITS
d. Main Location
Main Location: Blacksburg Municipal Park Shelter 9
end
";

fn week_one_activities() -> Vec<ActivityType<'static>> {
    vec![
        ActivityType::LLAB(
            LabAudience::Joint,
            ActivityDetails::new("Torg 2150", "White Shirt/Blues"),
        ),
        ActivityType::PT(
            PTDay::WTH,
            ActivityDetails::new("Drillfield", "AF PTGs / VTCC PT Gear"),
        ),
        ActivityType::MULLAB(ActivityDetails::new(
            "Mil Bldg Rom 208",
            "White Shirt/Blues",
        )),
        ActivityType::Unknown(ActivityDetails::new(
            "Blacksburg Municipal Park Shelter 9",
            "CITS",
        )),
    ]
}

#[test]
fn whole_order_in_document_order() {
    let parser = OpordParser::new(WEEK_ONE);
    let parsed = parser.parse().expect("failed to parse.");
    assert_eq!(1, parsed.week_num());
    assert_eq!(week_one_activities().as_slice(), parsed.activities());
    assert_eq!(ParsedOpord::new(1, week_one_activities()), parsed);
}

#[test]
fn order_holds_each_activity() {
    let parser = OpordParser::new(WEEK_ONE);
    let parsed = parser.parse().expect("failed to parse.");
    let result = parsed.activities();
    let llab = ActivityType::LLAB(
        LabAudience::Joint,
        ActivityDetails::new("Torg 2150", "White Shirt/Blues"),
    );
    let pt = ActivityType::PT(
        PTDay::WTH,
        ActivityDetails::new("Drillfield", "AF PTGs / VTCC PT Gear"),
    );
    let mullab = ActivityType::MULLAB(ActivityDetails::new(
        "Mil Bldg Rom 208",
        "White Shirt/Blues",
    ));
    let picnic = ActivityType::Unknown(ActivityDetails::new(
        "Blacksburg Municipal Park Shelter 9",
        "CITS",
    ));
    assert_eq!(1, parsed.week_num());
    assert!(result.contains(&picnic));
    assert!(result.contains(&mullab));
    assert!(result.contains(&llab));
    assert!(result.contains(&pt));
}

#[test]
fn parsing_twice_gives_equal_results() {
    let first = OpordParser::new(WEEK_ONE).parse();
    let second = OpordParser::new(WEEK_ONE).parse();
    assert_eq!(first, second);
    let parser = OpordParser::new("1. Mission\nWeek 1 Picnic\n");
    assert_eq!(parser.parse(), parser.parse());
}

#[test]
fn carriage_returns_end_lines_too() {
    let text = WEEK_ONE.replace('\n', "\r\n");
    let parsed = OpordParser::new(&text).parse().unwrap();
    assert_eq!(1, parsed.week_num());
    assert_eq!(week_one_activities().as_slice(), parsed.activities());
}

#[test]
fn last_line_needs_no_ending() {
    let text = WEEK_ONE.trim_end();
    assert!(text.ends_with("end"));
    let parsed = OpordParser::new(text).parse().unwrap();
    assert_eq!(4, parsed.activities().len());
}

#[test]
fn bare_carriage_return_belongs_to_the_line() {
    let text = "Week 3/ x\n1. Mission\rPicnic\n";
    let parsed = OpordParser::new(text).parse().unwrap();
    assert_eq!(3, parsed.week_num());
    assert!(parsed.activities().is_empty());
    let text = "Week 3/ x\n1. Mission\r";
    let parsed = OpordParser::new(text).parse().unwrap();
    assert!(parsed.activities().is_empty());
    let text = "Week 3/ x\n1. Mission\r\n";
    assert_eq!(
        Err(OpordParserError::IncompleteParse),
        OpordParser::new(text).parse()
    );
}

#[test]
fn order_without_activities() {
    let parsed = OpordParser::new("Week 9/ nothing").parse().unwrap();
    assert_eq!(9, parsed.week_num());
    assert!(parsed.activities().is_empty());
}

#[test]
fn empty_document_has_no_week() {
    assert_eq!(
        Err(OpordParserError::InvalidWeekFormat),
        OpordParser::new("").parse()
    );
    assert_eq!(
        Err(OpordParserError::InvalidWeekFormat),
        OpordParser::new("\n\n\n").parse()
    );
}

#[test]
fn document_without_week_heading() {
    let text = "1. Mission\nPicnic\nc. UOD\nCITS\nd. Main Location\nPark\n\n";
    assert_eq!(
        Err(OpordParserError::InvalidWeekFormat),
        OpordParser::new(text).parse()
    );
}

#[test]
fn first_week_heading_decides() {
    let text = "Week 4/ a\nWeek 5/ b\nWeek x/ c\n";
    assert_eq!(4, OpordParser::new(text).parse().unwrap().week_num());
    let text = "Weekly notes\nThe Week\nWeek 6/ b\nWeek 7/ c\n";
    assert_eq!(6, OpordParser::new(text).parse().unwrap().week_num());
}

#[test]
fn week_text_that_is_no_number_is_refused() {
    let text = "Week x/ a\nWeek 5/ b\n";
    assert_eq!(
        Err(OpordParserError::InvalidWeekNumber("x".to_string())),
        OpordParser::new(text).parse()
    );
    let text = "Week 300/ a\n";
    assert_eq!(
        Err(OpordParserError::InvalidWeekNumber("300".to_string())),
        OpordParser::new(text).parse()
    );
}

#[test]
fn week_error_comes_before_the_error_of_the_phase() {
    let text = "1. Mission\nWeek x/ Leadership";
    assert_eq!(
        Err(OpordParserError::InvalidWeekNumber("x".to_string())),
        OpordParser::new(text).parse()
    );
}

#[test]
fn document_cut_inside_a_block() {
    let cuts = [
        "Week 1/ x\n1. Mission\n",
        "Week 1/ x\n1. Mission\nPicnic\n",
        "Week 1/ x\n1. Mission\nPicnic\nc. UOD\n",
        "Week 1/ x\n1. Mission\nPicnic\nc. UOD\nCITS\n",
        "Week 1/ x\n1. Mission\nPicnic\nc. UOD\nCITS\nprose\nmore prose\n",
        "Week 1/ x\n1. Mission\nPicnic\nc. UOD\nCITS\nd. Main Location\n",
        "Week 1/ x\n1. Mission\nPicnic\nc. UOD\nCITS\nd. Main Location\nPark\n",
    ];
    for text in cuts {
        assert_eq!(
            Err(OpordParserError::IncompleteParse),
            OpordParser::new(text).parse(),
            "{:?}",
            text
        );
    }
    let whole = "Week 1/ x\n1. Mission\nPicnic\nc. UOD\nCITS\nd. Main Location\nPark\n\n";
    assert_eq!(1, OpordParser::new(whole).parse().unwrap().activities().len());
}

#[test]
fn cut_document_without_week_is_reported_as_cut() {
    assert_eq!(
        Err(OpordParserError::IncompleteParse),
        OpordParser::new("1. Mission\nPicnic\n").parse()
    );
}

#[test]
fn mission_name_without_slash_is_refused() {
    let text = "Week 1/ x\n1. Mission\n  Week 1 Picnic\nc. UOD\n";
    assert_eq!(
        Err(OpordParserError::WeekMisionNameParseFail(
            "Week 1 Picnic".to_string()
        )),
        OpordParser::new(text).parse()
    );
}

#[test]
fn activity_that_cannot_be_classified_is_refused() {
    let text = "Week 1/ x\n1. Mission\nLeadership Laboratory\nc. UOD\nCITS\nd. Main Location\nPark\n\n";
    assert_eq!(
        Err(OpordParserError::InvalidLLABAudience(
            "Leadership Laboratory".to_string()
        )),
        OpordParser::new(text).parse()
    );
    let text = "Week 1/ x\n1. Mission\nPhysical Training\nc. UOD\nCITS\nd. Main Location\nPark\n\n";
    assert_eq!(
        Err(OpordParserError::InvalidPTDay("Physical Training".to_string())),
        OpordParser::new(text).parse()
    );
}

#[test]
fn headings_out_of_turn_are_skipped() {
    let text = "Week 2/ x\nc. UOD\nd. Main Location\n1. Mission\n1. Mission\n1. Mission\nd. Main Location\nc. UOD\nc. UOD\nc. UOD\nd. Main Location\nd. Main Location\nz\n";
    let parsed = OpordParser::new(text).parse().unwrap();
    assert_eq!(
        [ActivityType::Unknown(ActivityDetails::new(
            "d. Main Location",
            "c. UOD"
        ))]
        .as_slice(),
        parsed.activities()
    );
}

#[test]
fn line_after_the_location_is_not_read_as_a_heading() {
    let text = "Week 2/ x\n1. Mission\nA\nc. UOD\nB\nd. Main Location\nC\n1. Mission\nD\n";
    let parsed = OpordParser::new(text).parse().unwrap();
    assert_eq!(
        [ActivityType::Unknown(ActivityDetails::new("C", "B"))].as_slice(),
        parsed.activities()
    );
}

#[test]
fn week_heading_inside_a_block_counts() {
    let text = "1. Mission\n\tWeek 1/ Joint Leadership Laboratory\nc. UOD\nGMC & POC: CITS\nd. Main Location\nMain Location: Torg 2150\n\n";
    let parsed = OpordParser::new(text).parse().unwrap();
    assert_eq!(1, parsed.week_num());
    assert_eq!(
        [ActivityType::LLAB(
            LabAudience::Joint,
            ActivityDetails::new("Torg 2150", "CITS")
        )]
        .as_slice(),
        parsed.activities()
    );
}

#[test]
fn text_beyond_ascii() {
    let text = "Week 8/ \u{e9}\n1. Mission\n\u{3000}F\u{ea}te\u{a0}\nc. UOD\nTenue: \u{e9}t\u{e9}\nd. Main Location\nMain Location: Caf\u{e9} \u{1f600}\n\n";
    let parsed = OpordParser::new(text).parse().unwrap();
    assert_eq!(8, parsed.week_num());
    assert_eq!(
        [ActivityType::Unknown(ActivityDetails::new(
            "Caf\u{e9} \u{1f600}",
            "\u{e9}t\u{e9}"
        ))]
        .as_slice(),
        parsed.activities()
    );
}
