//! From an order to the message of its week.
use vstd::prelude::*;
use vstd::string::StringExecFns;
use crate::activity::{ActivityModel, ActivityType, LabAudience, OpordModel, PTDay, models};
use crate::grammar::parse_document;
use crate::opord_parser::OpordParser;
use crate::parser_error::OpordParserError;
use crate::week_msg::{Activity, ActivityView, WeekMsg, WeekMsgView};

verus! {

/// The name under which the announcement shows an activity.
pub open spec fn shown_name(a: ActivityModel) -> Seq<char> {
    match a {
        ActivityModel::Unknown(_) => "[UNKNOWN]"@,
        ActivityModel::PT(PTDay::MT, _) => "M/T PT"@,
        ActivityModel::PT(PTDay::WTH, _) => "W/TH PT"@,
        ActivityModel::PT(PTDay::Remedial, _) => "Hero Workout"@,
        ActivityModel::LLAB(LabAudience::GMC, _) => "GMC LLAB"@,
        ActivityModel::LLAB(LabAudience::POC, _) => "POC LLAB"@,
        ActivityModel::LLAB(LabAudience::Joint, _) => "LLAB"@,
        ActivityModel::MULLAB(_) => "MULLAB"@,
    }
}

/// The entry of the message that shows an activity. The order names no
/// event, so the entry leaves it unknown.
pub open spec fn shown(a: ActivityModel) -> ActivityView {
    let details = match a {
        ActivityModel::Unknown(d) => d,
        ActivityModel::PT(_, d) => d,
        ActivityModel::LLAB(_, d) => d,
        ActivityModel::MULLAB(d) => d,
    };
    ActivityView {
        name: shown_name(a),
        event: "[UNKNOWN]"@,
        location: details.location,
        uniform: details.uniform,
    }
}

/// The message of the week that an order describes: its activities as
/// shown, no link, no countdowns and no announcements yet.
pub open spec fn message_for(opord: OpordModel) -> WeekMsgView {
    WeekMsgView {
        week_num: opord.week_num,
        opord_link: "[UNKNOWN]"@,
        countdowns: Seq::empty(),
        activities: Seq::new(opord.activities.len(), |i: int| shown(opord.activities[i])),
        announcements: Seq::empty(),
    }
}

/// A text as it stands: the announcement escapes nothing.
pub fn no_escape(x: &str) -> (r: String)
    ensures
        r@ == x@,
{
    String::from_str(x)
}

/// The entry of the message that shows `a`.
pub fn convert_activity(a: &ActivityType) -> (r: Activity)
    ensures
        r@ == shown(a@),
{
    let (name, details) = match a {
        ActivityType::Unknown(details) => ("[UNKNOWN]", details),
        ActivityType::PT(day, details) => (
            match day {
                PTDay::MT => "M/T PT",
                PTDay::WTH => "W/TH PT",
                PTDay::Remedial => "Hero Workout",
            },
            details,
        ),
        ActivityType::LLAB(audience, details) => (
            match audience {
                LabAudience::GMC => "GMC LLAB",
                LabAudience::POC => "POC LLAB",
                LabAudience::Joint => "LLAB",
            },
            details,
        ),
        ActivityType::MULLAB(details) => ("MULLAB", details),
    };
    Activity::new(
        String::from_str(name),
        String::from_str("[UNKNOWN]"),
        String::from_str(details.location()),
        String::from_str(details.uniform()),
    )
}

/// Reads an order and makes the message of its week, or hands on the error
/// of the parser.
pub fn parse_and_export_opord(opord: &str) -> (r: Result<WeekMsg, OpordParserError>)
    ensures
        match parse_document(opord@) {
            Ok(m) => r matches Ok(msg) && msg@ == message_for(m),
            Err(e) => r matches Err(x) && x@ == e,
        },
{
    let parser = OpordParser::new(opord);
    let res = match parser.parse() {
        Ok(res) => res,
        Err(e) => {
            return Err(e);
        },
    };
    let activities = res.activities();
    let mut converted: Vec<Activity> = Vec::new();
    let mut i: usize = 0;
    while i < activities.len()
        invariant
            i <= activities.len(),
            converted.len() == i,
            forall|k: int| 0 <= k < i ==> (#[trigger] converted@[k])@ == shown(activities@[k]@),
        decreases activities.len() - i,
    {
        converted.push(convert_activity(&activities[i]));
        i += 1;
    }
    let msg = WeekMsg::new(
        res.week_num(),
        String::from_str("[UNKNOWN]"),
        Vec::new(),
        converted,
        Vec::new(),
    );
    proof {
        assert(models(activities@) == res@.activities);
        assert(msg@.activities =~= message_for(res@).activities) by {
            assert forall|k: int| 0 <= k < msg@.activities.len() implies msg@.activities[k]
                == message_for(res@).activities[k] by {
                assert(models(activities@)[k] == activities@[k]@);
            }
        }
        assert(msg@.countdowns =~= message_for(res@).countdowns);
        assert(msg@.announcements =~= message_for(res@).announcements);
    }
    Ok(msg)
}

} // verus!
