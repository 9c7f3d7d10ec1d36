//! The activities of one week, as an order lists them.
use vstd::prelude::*;

verus! {

/// For whom a leadership laboratory is held.
#[derive(PartialEq, Eq, Structural, Clone, Copy, Debug)]
pub enum LabAudience {
    GMC,
    POC,
    Joint,
}

/// Which physical training session an activity is.
#[derive(PartialEq, Eq, Structural, Clone, Copy, Debug)]
pub enum PTDay {
    MT,
    WTH,
    Remedial,
}

/// What [`ActivityDetails`] stands for: where an activity takes place and in
/// which uniform.
pub struct DetailsModel {
    pub location: Seq<char>,
    pub uniform: Seq<char>,
}

/// What [`ActivityType`] stands for.
pub enum ActivityModel {
    Unknown(DetailsModel),
    PT(PTDay, DetailsModel),
    LLAB(LabAudience, DetailsModel),
    MULLAB(DetailsModel),
}

/// What [`ParsedOpord`] stands for: the week and its activities in the order
/// of the document.
pub struct OpordModel {
    pub week_num: u8,
    pub activities: Seq<ActivityModel>,
}

/// Where an activity takes place and in which uniform.
#[derive(PartialEq, Debug)]
pub struct ActivityDetails<'a> {
    location: &'a str,
    uniform: &'a str,
}

impl<'a> View for ActivityDetails<'a> {
    type V = DetailsModel;

    closed spec fn view(&self) -> DetailsModel {
        DetailsModel { location: self.location@, uniform: self.uniform@ }
    }
}

impl<'a> ActivityDetails<'a> {
    pub fn new(location: &'a str, uniform: &'a str) -> (r: Self)
        ensures
            r@ == (DetailsModel { location: location@, uniform: uniform@ }),
    {
        Self { location, uniform }
    }

    /// The place of the activity.
    pub fn location(&self) -> (r: &str)
        ensures
            r@ == self@.location,
    {
        self.location
    }

    /// The uniform of the day.
    pub fn uniform(&self) -> (r: &str)
        ensures
            r@ == self@.uniform,
    {
        self.uniform
    }
}

/// One activity of the week.
#[derive(PartialEq, Debug)]
pub enum ActivityType<'a> {
    Unknown(ActivityDetails<'a>),
    PT(PTDay, ActivityDetails<'a>),
    LLAB(LabAudience, ActivityDetails<'a>),
    MULLAB(ActivityDetails<'a>),
}

impl<'a> View for ActivityType<'a> {
    type V = ActivityModel;

    open spec fn view(&self) -> ActivityModel {
        match *self {
            ActivityType::Unknown(d) => ActivityModel::Unknown(d@),
            ActivityType::PT(day, d) => ActivityModel::PT(day, d@),
            ActivityType::LLAB(audience, d) => ActivityModel::LLAB(audience, d@),
            ActivityType::MULLAB(d) => ActivityModel::MULLAB(d@),
        }
    }
}

/// The models of a sequence of activities, one for one.
pub open spec fn models<'a>(activities: Seq<ActivityType<'a>>) -> Seq<ActivityModel> {
    Seq::new(activities.len(), |i: int| activities[i]@)
}

/// What one order yields: its week and its activities.
#[derive(PartialEq, Debug)]
pub struct ParsedOpord<'a> {
    week_num: u8,
    activities: Vec<ActivityType<'a>>,
}

impl<'a> View for ParsedOpord<'a> {
    type V = OpordModel;

    closed spec fn view(&self) -> OpordModel {
        OpordModel { week_num: self.week_num, activities: models(self.activities@) }
    }
}

impl<'a> ParsedOpord<'a> {
    pub fn new(week_num: u8, activities: Vec<ActivityType<'a>>) -> (r: Self)
        ensures
            r@ == (OpordModel { week_num, activities: models(activities@) }),
    {
        Self { week_num, activities }
    }

    /// The number of the week.
    pub fn week_num(&self) -> (r: u8)
        ensures
            r == self@.week_num,
    {
        self.week_num
    }

    /// The activities, in the order of the document.
    pub fn activities(&self) -> (r: &[ActivityType<'a>])
        ensures
            models(r@) == self@.activities,
    {
        self.activities.as_slice()
    }
}

} // verus!
