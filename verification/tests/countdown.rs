use opord_parse::countdown::{countdown_text, days_until, CountdownError};

// 25 March 2022, counted from 1 January of the year 1 as day 1.
const TODAY: i32 = 738_239;

#[test]
fn days_to_a_date() {
    assert_eq!(Ok(7), days_until(Some(738_246), TODAY));
    assert_eq!(Ok(-82), days_until(Some(738_157), TODAY));
    assert_eq!(Ok(0), days_until(Some(TODAY), TODAY));
    assert_eq!(
        Ok(4_294_967_295),
        days_until(Some(i32::MAX), i32::MIN)
    );
    assert_eq!(
        Ok(-4_294_967_295),
        days_until(Some(i32::MIN), i32::MAX)
    );
    assert_eq!(Err(CountdownError::InvalidDate), days_until(None, TODAY));
}

#[test]
fn countdown_in_words() {
    assert_eq!(
        Ok("1 week".to_string()),
        countdown_text(Some("04-01-2022"), TODAY)
    );
    assert_eq!(
        Ok("1 day".to_string()),
        countdown_text(Some("03-26-2022"), TODAY)
    );
    assert_eq!(
        Ok("1 week and 3 days".to_string()),
        countdown_text(Some("04-04-2022"), TODAY)
    );
    assert_eq!(
        Ok("1 year, 1 month and 5 days".to_string()),
        countdown_text(Some("04-29-2023"), TODAY)
    );
    assert_eq!(
        Ok("0 seconds".to_string()),
        countdown_text(Some("03-25-2022"), TODAY)
    );
}

#[test]
fn countdown_to_a_date_that_has_passed() {
    assert_eq!(
        Ok("2 months, 3 weeks and 1 day".to_string()),
        countdown_text(Some("01-02-2022"), TODAY)
    );
}

#[test]
fn countdown_over_the_whole_range_of_days() {
    assert!(countdown_text(Some("01-01-2022"), i32::MIN).is_ok());
    assert!(countdown_text(Some("01-01-2022"), i32::MAX).is_ok());
}

#[test]
fn countdown_without_a_date() {
    assert_eq!(
        Err(CountdownError::MissingDate),
        countdown_text(None, TODAY)
    );
    assert_eq!("param 0 is req'd", CountdownError::MissingDate.message());
}

#[test]
fn countdown_to_what_is_no_date() {
    for text in ["", "soon", "2022-04-01", "13-01-2022", "02-30-2022", "04/01/2022"] {
        assert_eq!(
            Err(CountdownError::InvalidDate),
            countdown_text(Some(text), TODAY),
            "{:?}",
            text
        );
    }
    assert_eq!("invalid date", CountdownError::InvalidDate.message());
}
