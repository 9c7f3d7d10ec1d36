//! The message of one week: what the announcement is rendered from.
use vstd::prelude::*;

verus! {

/// What [`Countdown`] stands for.
pub struct CountdownView {
    pub text: Seq<char>,
    pub date: Seq<char>,
}

/// What [`Activity`] stands for.
pub struct ActivityView {
    pub name: Seq<char>,
    pub event: Seq<char>,
    pub location: Seq<char>,
    pub uniform: Seq<char>,
}

/// What [`Announcement`] stands for.
pub struct AnnouncementView {
    pub title: Seq<char>,
    pub subtitle: Seq<char>,
    pub content: Seq<char>,
}

/// What [`WeekMsg`] stands for.
pub struct WeekMsgView {
    pub week_num: u8,
    pub opord_link: Seq<char>,
    pub countdowns: Seq<CountdownView>,
    pub activities: Seq<ActivityView>,
    pub announcements: Seq<AnnouncementView>,
}

/// The days left until a date, under a caption.
#[derive(Clone)]
pub struct Countdown {
    text: String,
    date: String,
}

impl View for Countdown {
    type V = CountdownView;

    closed spec fn view(&self) -> CountdownView {
        CountdownView { text: self.text@, date: self.date@ }
    }
}

impl Countdown {
    pub fn new(text: String, date: String) -> (r: Self)
        ensures
            r@ == (CountdownView { text: text@, date: date@ }),
    {
        Self { text, date }
    }

    /// The caption.
    pub fn text(&self) -> (r: &str)
        ensures
            r@ == self@.text,
    {
        self.text.as_str()
    }

    /// The date, as the message writes it.
    pub fn date(&self) -> (r: &str)
        ensures
            r@ == self@.date,
    {
        self.date.as_str()
    }
}

/// One activity, as the announcement shows it.
pub struct Activity {
    name: String,
    event: String,
    location: String,
    uniform: String,
}

impl View for Activity {
    type V = ActivityView;

    closed spec fn view(&self) -> ActivityView {
        ActivityView {
            name: self.name@,
            event: self.event@,
            location: self.location@,
            uniform: self.uniform@,
        }
    }
}

impl Activity {
    pub fn new(name: String, event: String, location: String, uniform: String) -> (r: Self)
        ensures
            r@ == (ActivityView {
                name: name@,
                event: event@,
                location: location@,
                uniform: uniform@,
            }),
    {
        Self { name, event, location, uniform }
    }

    /// The name of the activity.
    pub fn name(&self) -> (r: &str)
        ensures
            r@ == self@.name,
    {
        self.name.as_str()
    }

    /// The event that the activity belongs to.
    pub fn event(&self) -> (r: &str)
        ensures
            r@ == self@.event,
    {
        self.event.as_str()
    }

    /// The place of the activity.
    pub fn location(&self) -> (r: &str)
        ensures
            r@ == self@.location,
    {
        self.location.as_str()
    }

    /// The uniform of the day.
    pub fn uniform(&self) -> (r: &str)
        ensures
            r@ == self@.uniform,
    {
        self.uniform.as_str()
    }
}

/// One announcement of the week.
#[derive(Clone)]
pub struct Announcement {
    title: String,
    subtitle: String,
    content: String,
}

impl View for Announcement {
    type V = AnnouncementView;

    closed spec fn view(&self) -> AnnouncementView {
        AnnouncementView { title: self.title@, subtitle: self.subtitle@, content: self.content@ }
    }
}

impl Announcement {
    pub fn new(title: String, subtitle: String, content: String) -> (r: Self)
        ensures
            r@ == (AnnouncementView { title: title@, subtitle: subtitle@, content: content@ }),
    {
        Self { title, subtitle, content }
    }

    /// The headline.
    pub fn title(&self) -> (r: &str)
        ensures
            r@ == self@.title,
    {
        self.title.as_str()
    }

    /// The line below the headline.
    pub fn subtitle(&self) -> (r: &str)
        ensures
            r@ == self@.subtitle,
    {
        self.subtitle.as_str()
    }

    /// The text.
    pub fn content(&self) -> (r: &str)
        ensures
            r@ == self@.content,
    {
        self.content.as_str()
    }
}

/// The views of some countdowns, one for one.
pub open spec fn countdown_views(s: Seq<Countdown>) -> Seq<CountdownView> {
    Seq::new(s.len(), |i: int| s[i]@)
}

/// The views of some activities, one for one.
pub open spec fn activity_views(s: Seq<Activity>) -> Seq<ActivityView> {
    Seq::new(s.len(), |i: int| s[i]@)
}

/// The views of some announcements, one for one.
pub open spec fn announcement_views(s: Seq<Announcement>) -> Seq<AnnouncementView> {
    Seq::new(s.len(), |i: int| s[i]@)
}

/// The message of one week.
pub struct WeekMsg {
    week_num: u8,
    opord_link: String,
    countdowns: Vec<Countdown>,
    activities: Vec<Activity>,
    announcements: Vec<Announcement>,
}

impl View for WeekMsg {
    type V = WeekMsgView;

    closed spec fn view(&self) -> WeekMsgView {
        WeekMsgView {
            week_num: self.week_num,
            opord_link: self.opord_link@,
            countdowns: countdown_views(self.countdowns@),
            activities: activity_views(self.activities@),
            announcements: announcement_views(self.announcements@),
        }
    }
}

impl WeekMsg {
    pub fn new(
        week_num: u8,
        opord_link: String,
        countdowns: Vec<Countdown>,
        activities: Vec<Activity>,
        announcements: Vec<Announcement>,
    ) -> (r: Self)
        ensures
            r@ == (WeekMsgView {
                week_num,
                opord_link: opord_link@,
                countdowns: countdown_views(countdowns@),
                activities: activity_views(activities@),
                announcements: announcement_views(announcements@),
            }),
    {
        Self { week_num, opord_link, countdowns, activities, announcements }
    }

    /// The number of the week.
    pub fn week_num(&self) -> (r: u8)
        ensures
            r == self@.week_num,
    {
        self.week_num
    }

    /// The link to the order.
    pub fn opord_link(&self) -> (r: &str)
        ensures
            r@ == self@.opord_link,
    {
        self.opord_link.as_str()
    }

    /// The activities of the week.
    pub fn activities(&self) -> (r: &[Activity])
        ensures
            activity_views(r@) == self@.activities,
    {
        self.activities.as_slice()
    }

    /// The announcements, to be changed in place: what the caller leaves in
    /// them is what the message then holds, and nothing else changes.
    pub fn announcements_mut(&mut self) -> (r: &mut Vec<Announcement>)
        ensures
            announcement_views(r@) == old(self)@.announcements,
            final(self)@ == (WeekMsgView {
                announcements: announcement_views(final(r)@),
                ..old(self)@
            }),
    {
        &mut self.announcements
    }

    /// The announcements of the week.
    pub fn announcements(&self) -> (r: &[Announcement])
        ensures
            announcement_views(r@) == self@.announcements,
    {
        self.announcements.as_slice()
    }

    /// The countdowns, to be changed in place: what the caller leaves in
    /// them is what the message then holds, and nothing else changes.
    pub fn countdowns_mut(&mut self) -> (r: &mut Vec<Countdown>)
        ensures
            countdown_views(r@) == old(self)@.countdowns,
            final(self)@ == (WeekMsgView {
                countdowns: countdown_views(final(r)@),
                ..old(self)@
            }),
    {
        &mut self.countdowns
    }

    /// The countdowns of the week.
    pub fn countdowns(&self) -> (r: &[Countdown])
        ensures
            countdown_views(r@) == self@.countdowns,
    {
        self.countdowns.as_slice()
    }
}

} // verus!
