//! The parser: it walks the lines of an order once and yields the week and
//! its activities, as [`parse_document`] states.
use vstd::prelude::*;
use vstd::string::StrSliceExecFns;
use vstd::string::StringExecFns;
use crate::activity::{
    models,
    ActivityDetails,
    ActivityModel,
    ActivityType,
    LabAudience,
    OpordModel,
    PTDay,
    ParsedOpord,
};
use crate::grammar::{
    advance,
    all_digits,
    classify,
    decimal_value,
    finish,
    is_digit,
    is_location_heading,
    is_mission_heading,
    is_uod_heading,
    lemma_decimal_prefix,
    line_feed,
    lines_from,
    lines_of,
    location_of,
    name_of,
    note_week,
    parse_document,
    run,
    start,
    unsigned_part,
    uod_of,
    week_of,
    week_value,
    Phase,
    Scan,
};
use crate::parser_error::{ErrorModel, OpordParserError};
use crate::text::{
    after,
    chars_of,
    find_range,
    range_contains,
    range_is,
    range_starts_with,
    trim_range,
    vec_contains,
    vec_starts_with,
};

verus! {

/// Reads the week number that the window `lo..hi` of `s` writes.
pub fn week_number(s: &Vec<char>, lo: usize, hi: usize) -> (r: Option<u8>)
    requires
        lo <= hi <= s.len(),
    ensures
        r == week_value(s@.subrange(lo as int, hi as int)),
{
    let ghost t = s@.subrange(lo as int, hi as int);
    let mut i: usize = lo;
    if i < hi && s[i] == '+' {
        i += 1;
    }
    let first: usize = i;
    let ghost d = s@.subrange(first as int, hi as int);
    proof {
        assert(unsigned_part(t) =~= d);
    }
    if i == hi {
        return None;
    }
    let mut acc: u16 = 0;
    while i < hi
        invariant
            lo <= first <= i <= hi <= s.len(),
            first < hi,
            d == s@.subrange(first as int, hi as int),
            unsigned_part(s@.subrange(lo as int, hi as int)) == d,
            all_digits(d.take(i - first)),
            acc == decimal_value(d.take(i - first)),
            acc <= 255,
        decreases hi - i,
    {
        let n: u32 = s[i] as u32;
        if n < 0x30 || n > 0x39 {
            proof {
                assert(!is_digit(d[i - first]));
            }
            return None;
        }
        let v: u16 = acc * 10 + (n - 0x30) as u16;
        proof {
            let next = d.take(i + 1 - first);
            assert(next.drop_last() =~= d.take(i - first));
            assert(next.last() == s@[i as int]);
            assert(v == decimal_value(next));
            assert(all_digits(next)) by {
                assert forall|j: int| 0 <= j < next.len() implies is_digit(#[trigger] next[j]) by {
                    if j < i - first {
                        assert(d.take(i - first)[j] == next[j]);
                    }
                }
            }
            if v > 255 && all_digits(d) {
                lemma_decimal_prefix(d, i + 1 - first);
            }
        }
        if v > 255 {
            return None;
        }
        acc = v;
        i += 1;
    }
    proof {
        assert(d.take(hi - first) =~= d);
    }
    Some(acc as u8)
}

/// The marks of the grammar as characters, made once for a document.
struct Marks {
    week: Vec<char>,
    slash: Vec<char>,
    blank: Vec<char>,
    colon: Vec<char>,
    label: Vec<char>,
    mission: Vec<char>,
    uod: Vec<char>,
    location: Vec<char>,
}

impl Marks {
    /// Whether each mark holds the characters of its text.
    spec fn ready(&self) -> bool {
        &&& self.week@ == "Week"@
        &&& self.slash@ == "/"@
        &&& self.blank@ == " "@
        &&& self.colon@ == ":"@
        &&& self.label@ == "Main Location:"@
        &&& self.mission@ == "1. Mission"@
        &&& self.uod@ == "c. UOD"@
        &&& self.location@ == "d. Main Location"@
    }

    fn new() -> (r: Self)
        ensures
            r.ready(),
    {
        Marks {
            week: chars_of("Week"),
            slash: chars_of("/"),
            blank: chars_of(" "),
            colon: chars_of(":"),
            label: chars_of("Main Location:"),
            mission: chars_of("1. Mission"),
            uod: chars_of("c. UOD"),
            location: chars_of("d. Main Location"),
        }
    }
}

/// The window of the name in the line `lo..hi` of `s`, or the window of the
/// trimmed line where the name is refused.
fn name_range(s: &Vec<char>, lo: usize, hi: usize, marks: &Marks) -> (r: Result<
    (usize, usize),
    (usize, usize),
>)
    requires
        lo <= hi <= s.len(),
        marks.ready(),
    ensures
        match r {
            Ok(w) => lo <= w.0 <= w.1 <= hi && name_of(s@.subrange(lo as int, hi as int)) == Ok::<
                Seq<char>,
                Seq<char>,
            >(s@.subrange(w.0 as int, w.1 as int)),
            Err(w) => lo <= w.0 <= w.1 <= hi && name_of(s@.subrange(lo as int, hi as int))
                == Err::<Seq<char>, Seq<char>>(s@.subrange(w.0 as int, w.1 as int)),
        },
{
    let (a, b) = trim_range(s, lo, hi);
    if range_starts_with(s, a, b, &marks.week) {
        match find_range(s, a, b, &marks.slash) {
            Some(p) => {
                proof {
                    reveal_strlit("/");
                    let t = s@.subrange(a as int, b as int);
                    assert(after(t, p - a + 1) =~= s@.subrange(p + 1, b as int));
                }
                let (c, d) = trim_range(s, p + 1, b);
                Ok((c, d))
            },
            None => Err((a, b)),
        }
    } else {
        Ok((a, b))
    }
}

/// The window of the uniform in the line `lo..hi` of `s`.
fn uod_range(s: &Vec<char>, lo: usize, hi: usize, marks: &Marks) -> (r: (usize, usize))
    requires
        lo <= hi <= s.len(),
        marks.ready(),
    ensures
        lo <= r.0 <= r.1 <= hi,
        uod_of(s@.subrange(lo as int, hi as int)) == s@.subrange(r.0 as int, r.1 as int),
{
    let (a, b) = trim_range(s, lo, hi);
    match find_range(s, a, b, &marks.colon) {
        Some(p) => {
            proof {
                reveal_strlit(":");
                let t = s@.subrange(a as int, b as int);
                assert(after(t, p - a + 1) =~= s@.subrange(p + 1, b as int));
            }
            trim_range(s, p + 1, b)
        },
        None => (a, b),
    }
}

/// The window of the location in the line `lo..hi` of `s`.
fn location_range(s: &Vec<char>, lo: usize, hi: usize, marks: &Marks) -> (r: (usize, usize))
    requires
        lo <= hi <= s.len(),
        marks.ready(),
    ensures
        lo <= r.0 <= r.1 <= hi,
        location_of(s@.subrange(lo as int, hi as int)) == s@.subrange(r.0 as int, r.1 as int),
{
    let (a, b) = trim_range(s, lo, hi);
    match find_range(s, a, b, &marks.label) {
        Some(p) => {
            proof {
                let t = s@.subrange(a as int, b as int);
                assert(after(t, p - a + marks.label@.len()) =~= s@.subrange(
                    p + marks.label@.len(),
                    b as int,
                ));
            }
            trim_range(s, p + marks.label.len(), b)
        },
        None => (a, b),
    }
}

/// What the line `lo..hi` of `s` says of the week; where its text is no
/// number, the window of that text.
fn week_range(s: &Vec<char>, lo: usize, hi: usize, marks: &Marks) -> (r: Option<
    Result<u8, (usize, usize)>,
>)
    requires
        lo <= hi <= s.len(),
        marks.ready(),
    ensures
        match r {
            None => week_of(s@.subrange(lo as int, hi as int)) is None,
            Some(Ok(n)) => week_of(s@.subrange(lo as int, hi as int)) == Some(
                Ok::<u8, Seq<char>>(n),
            ),
            Some(Err(w)) => lo <= w.0 <= w.1 <= hi && week_of(s@.subrange(lo as int, hi as int))
                == Some(Err::<u8, Seq<char>>(s@.subrange(w.0 as int, w.1 as int))),
        },
{
    if !range_contains(s, lo, hi, &marks.week) {
        return None;
    }
    let (a, b) = trim_range(s, lo, hi);
    let ghost t = s@.subrange(a as int, b as int);
    match find_range(s, a, b, &marks.slash) {
        Some(slash_pos) => match find_range(s, a, b, &marks.blank) {
            Some(space_pos) => {
                let (c, d) = if space_pos <= slash_pos {
                    proof {
                        assert(t.subrange(space_pos - a, slash_pos - a) =~= s@.subrange(
                            space_pos as int,
                            slash_pos as int,
                        ));
                    }
                    trim_range(s, space_pos, slash_pos)
                } else {
                    proof {
                        assert(s@.subrange(a as int, a as int) =~= Seq::<char>::empty());
                    }
                    (a, a)
                };
                match week_number(s, c, d) {
                    Some(n) => Some(Ok(n)),
                    None => Some(Err((c, d))),
                }
            },
            None => None,
        },
        None => None,
    }
}

/// The activity that a name, a uniform and a location describe.
///
/// A name with `Leadership Laboratory` is a make-up laboratory where it
/// begins with `Make Up` or `Make-Up`, else a laboratory for the audience it
/// begins with, else refused. A name with `Physical Training` is a session
/// of the day it begins with, or a remedial one where it holds `Remedial`,
/// else refused. Any other name is an unknown activity.
pub fn parse_activity<'a>(name: &'a str, uod: &'a str, location: &'a str) -> (r: Result<
    ActivityType<'a>,
    OpordParserError,
>)
    ensures
        match classify(name@, uod@, location@) {
            Ok(m) => r matches Ok(a) && a@ == m,
            Err(e) => r matches Err(x) && x@ == e,
        },
{
    let details = ActivityDetails::new(location, uod);
    let n = chars_of(name);
    if vec_contains(&n, &chars_of("Leadership Laboratory")) {
        if vec_starts_with(&n, &chars_of("Make Up")) || vec_starts_with(&n, &chars_of("Make-Up")) {
            return Ok(ActivityType::MULLAB(details));
        }
        let audience = if vec_starts_with(&n, &chars_of("GMC")) {
            LabAudience::GMC
        } else if vec_starts_with(&n, &chars_of("POC")) {
            LabAudience::POC
        } else if vec_starts_with(&n, &chars_of("Joint")) {
            LabAudience::Joint
        } else {
            return Err(OpordParserError::InvalidLLABAudience(String::from_str(name)));
        };
        return Ok(ActivityType::LLAB(audience, details));
    }
    if vec_contains(&n, &chars_of("Physical Training")) {
        let day = if vec_starts_with(&n, &chars_of("Monday/Tuesday")) {
            PTDay::MT
        } else if vec_starts_with(&n, &chars_of("Wednesday/Thursday")) {
            PTDay::WTH
        } else if vec_contains(&n, &chars_of("Remedial")) {
            PTDay::Remedial
        } else {
            return Err(OpordParserError::InvalidPTDay(String::from_str(name)));
        };
        return Ok(ActivityType::PT(day, details));
    }
    Ok(ActivityType::Unknown(details))
}

/// Whether `line` opens an activity.
pub fn found_mission(line: &str) -> (r: bool)
    ensures
        r == is_mission_heading(line@),
{
    let s = chars_of(line);
    proof {
        assert(s@.subrange(0, s@.len() as int) =~= line@);
    }
    range_is(&s, 0, s.len(), &chars_of("1. Mission"))
}

/// Whether `line` announces the uniform of the day.
pub fn found_uod(line: &str) -> (r: bool)
    ensures
        r == is_uod_heading(line@),
{
    let s = chars_of(line);
    proof {
        assert(s@.subrange(0, s@.len() as int) =~= line@);
    }
    let (a, b) = trim_range(&s, 0, s.len());
    range_is(&s, a, b, &chars_of("c. UOD"))
}

/// Whether `line` announces the location.
pub fn found_location(line: &str) -> (r: bool)
    ensures
        r == is_location_heading(line@),
{
    let s = chars_of(line);
    proof {
        assert(s@.subrange(0, s@.len() as int) =~= line@);
    }
    let (a, b) = trim_range(&s, 0, s.len());
    range_is(&s, a, b, &chars_of("d. Main Location"))
}

/// The location that `line` gives. The label `Main Location:` is optional:
/// a line without it is the location as a whole, so this never fails.
pub fn get_location<'a>(line: &'a str) -> (r: Result<&'a str, OpordParserError>)
    ensures
        r matches Ok(v) && v@ == location_of(line@),
{
    let s = chars_of(line);
    proof {
        assert(s@.subrange(0, s@.len() as int) =~= line@);
    }
    let (a, b) = location_range(&s, 0, s.len(), &Marks::new());
    Ok(line.substring_char(a, b))
}

/// The name of the activity that `line` gives.
pub fn get_name<'a>(line: &'a str) -> (r: Result<&'a str, OpordParserError>)
    ensures
        match name_of(line@) {
            Ok(name) => r matches Ok(v) && v@ == name,
            Err(t) => r matches Err(e) && e@ == ErrorModel::WeekMisionNameParseFail(t),
        },
{
    let s = chars_of(line);
    proof {
        assert(s@.subrange(0, s@.len() as int) =~= line@);
    }
    match name_range(&s, 0, s.len(), &Marks::new()) {
        Ok((a, b)) => Ok(line.substring_char(a, b)),
        Err((a, b)) => Err(
            OpordParserError::WeekMisionNameParseFail(String::from_str(line.substring_char(a, b))),
        ),
    }
}

/// The uniform that `line` gives.
pub fn get_uod<'a>(line: &'a str) -> (r: &'a str)
    ensures
        r@ == uod_of(line@),
{
    let s = chars_of(line);
    proof {
        assert(s@.subrange(0, s@.len() as int) =~= line@);
    }
    let (a, b) = uod_range(&s, 0, s.len(), &Marks::new());
    line.substring_char(a, b)
}

/// What `line` says of the week: `None` where it is no week heading, else
/// the number, or the error that carries the text that is none.
pub fn get_week(line: &str) -> (r: Option<Result<u8, OpordParserError>>)
    ensures
        match week_of(line@) {
            None => r is None,
            Some(Ok(n)) => r == Some(Ok::<u8, OpordParserError>(n)),
            Some(Err(text)) => r matches Some(Err(e)) && e@ == ErrorModel::InvalidWeekNumber(text),
        },
{
    let s = chars_of(line);
    proof {
        assert(s@.subrange(0, s@.len() as int) =~= line@);
    }
    match week_range(&s, 0, s.len(), &Marks::new()) {
        None => None,
        Some(Ok(n)) => Some(Ok(n)),
        Some(Err((a, b))) => Some(
            Err(OpordParserError::InvalidWeekNumber(String::from_str(line.substring_char(a, b)))),
        ),
    }
}

/// The line of `s` that begins at `pos`: where it ends, and where the next
/// line begins (the length of `s` where none follows).
pub fn line_at(s: &Vec<char>, pos: usize) -> (r: (usize, usize))
    requires
        pos < s.len(),
    ensures
        pos <= r.0 <= r.1 <= s.len(),
        pos < r.1,
        lines_from(s@, pos as int).len() > 0,
        lines_from(s@, pos as int).first() == s@.subrange(pos as int, r.0 as int),
        lines_from(s@, pos as int).drop_first() == lines_from(s@, r.1 as int),
{
    let mut e: usize = pos;
    while e < s.len() && s[e] != '\n'
        invariant
            pos <= e <= s.len(),
            line_feed(s@, pos as int) == line_feed(s@, e as int),
        decreases s.len() - e,
    {
        e += 1;
    }
    let stop = if pos < e && e < s.len() && s[e - 1] == '\r' {
        e - 1
    } else {
        e
    };
    let next = if e < s.len() {
        e + 1
    } else {
        e
    };
    proof {
        assert(lines_from(s@, pos as int).drop_first() =~= lines_from(s@, next as int));
    }
    (stop, next)
}

/// The scanner between two lines of one document.
struct Scanner<'a> {
    phase: Phase,
    name: &'a str,
    uod: &'a str,
    location: &'a str,
    week_num: Option<u8>,
    activities: Vec<ActivityType<'a>>,
}

impl<'a> View for Scanner<'a> {
    type V = Scan;

    closed spec fn view(&self) -> Scan {
        Scan {
            phase: self.phase,
            name: self.name@,
            uod: self.uod@,
            location: self.location@,
            week_num: self.week_num,
            activities: models(self.activities@),
        }
    }
}

impl<'a> Scanner<'a> {
    /// The scanner before the first line.
    fn new() -> (r: Self)
        ensures
            r@ == start(),
    {
        proof {
            reveal_strlit("");
            assert(""@ =~= Seq::<char>::empty());
            assert(models(Seq::<ActivityType<'a>>::empty()) =~= Seq::<ActivityModel>::empty());
        }
        Scanner {
            phase: Phase::ScanMission,
            name: "",
            uod: "",
            location: "",
            week_num: None,
            activities: Vec::new(),
        }
    }

    /// Takes the week number from the line `lo..hi` of the document, as
    /// long as none is known.
    fn note_week(
        self,
        doc: &'a str,
        s: &Vec<char>,
        lo: usize,
        hi: usize,
        marks: &Marks,
    ) -> (r: Result<Self, OpordParserError>)
        requires
            s@ == doc@,
            lo <= hi <= s.len(),
            marks.ready(),
        ensures
            match note_week(self@, s@.subrange(lo as int, hi as int)) {
                Ok(next) => r matches Ok(n) && n@ == next,
                Err(e) => r matches Err(x) && x@ == e,
            },
    {
        if self.week_num.is_some() {
            return Ok(self);
        }
        match week_range(s, lo, hi, marks) {
            None => Ok(self),
            Some(Ok(n)) => Ok(Scanner { week_num: Some(n), ..self }),
            Some(Err((a, b))) => Err(
                OpordParserError::InvalidWeekNumber(String::from_str(doc.substring_char(a, b))),
            ),
        }
    }

    /// Moves over the line `lo..hi` of the document by the rule of the
    /// phase.
    fn advance(
        self,
        doc: &'a str,
        s: &Vec<char>,
        lo: usize,
        hi: usize,
        marks: &Marks,
    ) -> (r: Result<Self, OpordParserError>)
        requires
            s@ == doc@,
            lo <= hi <= s.len(),
            marks.ready(),
        ensures
            match advance(self@, s@.subrange(lo as int, hi as int)) {
                Ok(next) => r matches Ok(n) && n@ == next,
                Err(e) => r matches Err(x) && x@ == e,
            },
    {
        match self.phase {
            Phase::ScanMission => {
                if range_is(s, lo, hi, &marks.mission) {
                    Ok(Scanner { phase: Phase::ReadMissionName, ..self })
                } else {
                    Ok(self)
                }
            },
            Phase::ReadMissionName => match name_range(s, lo, hi, marks) {
                Ok((a, b)) => Ok(
                    Scanner { phase: Phase::ScanUOD, name: doc.substring_char(a, b), ..self },
                ),
                Err((a, b)) => Err(
                    OpordParserError::WeekMisionNameParseFail(
                        String::from_str(doc.substring_char(a, b)),
                    ),
                ),
            },
            Phase::ScanUOD => {
                let (a, b) = trim_range(s, lo, hi);
                if range_is(s, a, b, &marks.uod) {
                    Ok(Scanner { phase: Phase::ReadUOD, ..self })
                } else {
                    Ok(self)
                }
            },
            Phase::ReadUOD => {
                let (a, b) = uod_range(s, lo, hi, marks);
                Ok(Scanner { phase: Phase::ScanLocation, uod: doc.substring_char(a, b), ..self })
            },
            Phase::ScanLocation => {
                let (a, b) = trim_range(s, lo, hi);
                if range_is(s, a, b, &marks.location) {
                    Ok(Scanner { phase: Phase::ReadLocation, ..self })
                } else {
                    Ok(self)
                }
            },
            Phase::ReadLocation => {
                let (a, b) = location_range(s, lo, hi, marks);
                Ok(
                    Scanner {
                        phase: Phase::ActivityParseComplete,
                        location: doc.substring_char(a, b),
                        ..self
                    },
                )
            },
            Phase::ActivityParseComplete => {
                let activity = match parse_activity(self.name, self.uod, self.location) {
                    Ok(activity) => activity,
                    Err(e) => {
                        return Err(e);
                    },
                };
                let ghost before = self.activities@;
                let mut activities = self.activities;
                activities.push(activity);
                proof {
                    reveal_strlit("");
                    assert(""@ =~= Seq::<char>::empty());
                    assert(models(activities@) =~= models(before).push(activity@));
                }
                Ok(
                    Scanner {
                        phase: Phase::ScanMission,
                        name: "",
                        uod: "",
                        location: "",
                        week_num: self.week_num,
                        activities,
                    },
                )
            },
        }
    }

    /// What the scanner yields at the end of the document.
    fn finish(self) -> (r: Result<ParsedOpord<'a>, OpordParserError>)
        ensures
            match finish(self@) {
                Ok(m) => r matches Ok(p) && p@ == m,
                Err(e) => r matches Err(x) && x@ == e,
            },
    {
        match self.phase {
            Phase::ScanMission => {},
            _ => {
                return Err(OpordParserError::IncompleteParse);
            },
        }
        match self.week_num {
            Some(n) => Ok(ParsedOpord::new(n, self.activities)),
            None => Err(OpordParserError::InvalidWeekFormat),
        }
    }
}

/// What a result of the parser stands for.
pub open spec fn outcome<'a>(r: Result<ParsedOpord<'a>, OpordParserError>) -> Result<
    OpordModel,
    ErrorModel,
> {
    match r {
        Ok(p) => Ok(p@),
        Err(e) => Err(e@),
    }
}

/// A parser for one order, held as text.
pub struct OpordParser<'a> {
    opord: &'a str,
}

impl<'a> View for OpordParser<'a> {
    type V = Seq<char>;

    closed spec fn view(&self) -> Seq<char> {
        self.opord@
    }
}

impl<'a> OpordParser<'a> {
    pub fn new(opord: &'a str) -> (r: Self)
        ensures
            r@ == opord@,
    {
        Self { opord }
    }

    /// Reads the order: its week and its activities in the order of the
    /// document, or the error of the first line that fails. A document
    /// that ends inside an activity, or that gives no week number, is
    /// refused.
    pub fn parse(&self) -> (r: Result<ParsedOpord<'a>, OpordParserError>)
        ensures
            outcome(r) == parse_document(self@),
    {
        let doc = self.opord;
        let s = chars_of(doc);
        let n = s.len();
        let marks = Marks::new();
        let mut scanner = Scanner::new();
        let mut pos: usize = 0;
        while pos < n
            invariant
                s@ == doc@,
                doc@ == self@,
                marks.ready(),
                n == s.len(),
                pos <= n,
                run(start(), lines_of(s@)) == run(scanner@, lines_from(s@, pos as int)),
            decreases n - pos,
        {
            let (stop, next) = line_at(&s, pos);
            let noted = match scanner.note_week(doc, &s, pos, stop, &marks) {
                Ok(noted) => noted,
                Err(e) => {
                    return Err(e);
                },
            };
            scanner =
            match noted.advance(doc, &s, pos, stop, &marks) {
                Ok(moved) => moved,
                Err(e) => {
                    return Err(e);
                },
            };
            pos = next;
        }
        scanner.finish()
    }
}

} // verus!
