//! Why an order could not be read.
use vstd::prelude::*;
use vstd::string::StringExecFns;

verus! {

/// Why an order could not be read. A variant with text carries what the
/// document held at the place that failed.
#[derive(PartialEq, Debug)]
pub enum OpordParserError {
    /// A leadership laboratory whose name names no audience.
    InvalidLLABAudience(String),
    /// A physical training session whose name names no day.
    InvalidPTDay(String),
    /// A location line without its label. The label is optional, so no
    /// function of this library returns this variant.
    InvalidLocationFormat(String),
    /// A mission name that begins with `Week` and holds no `/`.
    WeekMisionNameParseFail(String),
    /// The document ended inside an activity.
    IncompleteParse,
    /// No line of the document gave a week number.
    InvalidWeekFormat,
    /// The text between the space and the `/` of the week heading is no
    /// number from 0 to 255.
    InvalidWeekNumber(String),
}

/// What [`OpordParserError`] stands for.
pub enum ErrorModel {
    InvalidLLABAudience(Seq<char>),
    InvalidPTDay(Seq<char>),
    InvalidLocationFormat(Seq<char>),
    WeekMisionNameParseFail(Seq<char>),
    IncompleteParse,
    InvalidWeekFormat,
    InvalidWeekNumber(Seq<char>),
}

impl View for OpordParserError {
    type V = ErrorModel;

    open spec fn view(&self) -> ErrorModel {
        match *self {
            OpordParserError::InvalidLLABAudience(s) => ErrorModel::InvalidLLABAudience(s@),
            OpordParserError::InvalidPTDay(s) => ErrorModel::InvalidPTDay(s@),
            OpordParserError::InvalidLocationFormat(s) => ErrorModel::InvalidLocationFormat(s@),
            OpordParserError::WeekMisionNameParseFail(s) => ErrorModel::WeekMisionNameParseFail(
                s@,
            ),
            OpordParserError::IncompleteParse => ErrorModel::IncompleteParse,
            OpordParserError::InvalidWeekFormat => ErrorModel::InvalidWeekFormat,
            OpordParserError::InvalidWeekNumber(s) => ErrorModel::InvalidWeekNumber(s@),
        }
    }
}

/// The sentence that reports `e`.
pub open spec fn message_of(e: ErrorModel) -> Seq<char> {
    match e {
        ErrorModel::InvalidLLABAudience(name) => "Could not determine LLAB audience from name '"@
            + name + "'."@,
        ErrorModel::InvalidPTDay(name) => "Could not determine PT day from the name `"@ + name
            + "`"@,
        ErrorModel::InvalidLocationFormat(line) => "Error parsing the location `"@ + line
            + "`. Expected the the location to start with 'Main Location'. "@,
        ErrorModel::WeekMisionNameParseFail(_) =>
            "Mission name started with `Week` but did not contain a `/`"@,
        ErrorModel::IncompleteParse => "Encountered EOF mid parse. Is the file corrupt?"@,
        ErrorModel::InvalidWeekFormat => "Could not parse the week."@,
        ErrorModel::InvalidWeekNumber(_) => "Could not parse the week number"@,
    }
}

impl OpordParserError {
    /// The sentence that reports this error.
    pub fn message(&self) -> (r: String)
        ensures
            r@ == message_of(self@),
    {
        match self {
            OpordParserError::InvalidLLABAudience(name) => String::from_str(
                "Could not determine LLAB audience from name '",
            ).concat(name.as_str()).concat("'."),
            OpordParserError::InvalidPTDay(name) => String::from_str(
                "Could not determine PT day from the name `",
            ).concat(name.as_str()).concat("`"),
            OpordParserError::InvalidLocationFormat(line) => String::from_str(
                "Error parsing the location `",
            ).concat(line.as_str()).concat(
                "`. Expected the the location to start with 'Main Location'. ",
            ),
            OpordParserError::WeekMisionNameParseFail(_) => String::from_str(
                "Mission name started with `Week` but did not contain a `/`",
            ),
            OpordParserError::IncompleteParse => String::from_str(
                "Encountered EOF mid parse. Is the file corrupt?",
            ),
            OpordParserError::InvalidWeekFormat => String::from_str("Could not parse the week."),
            OpordParserError::InvalidWeekNumber(_) => String::from_str(
                "Could not parse the week number",
            ),
        }
    }
}

} // verus!
