//! The grammar of an order, stated over sequences of characters: its
//! headings, the fields of an activity, the week heading, the
//! classification of an activity by its name, and the scanner that walks
//! the lines of a document.
use vstd::prelude::*;
use crate::activity::{ActivityModel, DetailsModel, LabAudience, OpordModel, PTDay};
use crate::parser_error::ErrorModel;
use crate::text::{after, contains, find, starts_with, trim};

verus! {

/// The line that opens an activity. It is compared as it stands.
pub open spec fn is_mission_heading(line: Seq<char>) -> bool {
    line == "1. Mission"@
}

/// The line that announces the uniform of the day.
pub open spec fn is_uod_heading(line: Seq<char>) -> bool {
    trim(line) == "c. UOD"@
}

/// The line that announces the location.
pub open spec fn is_location_heading(line: Seq<char>) -> bool {
    trim(line) == "d. Main Location"@
}

/// The name of an activity, from the line below the mission heading. A line
/// that begins with `Week` holds the name behind its first `/`; without a
/// `/` it is refused, and the trimmed line is handed back.
pub open spec fn name_of(line: Seq<char>) -> Result<Seq<char>, Seq<char>> {
    let t = trim(line);
    if starts_with(t, "Week"@) {
        match find(t, "/"@) {
            Some(p) => Ok(trim(after(t, p + 1))),
            None => Err(t),
        }
    } else {
        Ok(t)
    }
}

/// The uniform, from the line below its heading: what follows the first
/// `:`, or the whole line where there is none.
pub open spec fn uod_of(line: Seq<char>) -> Seq<char> {
    let t = trim(line);
    match find(t, ":"@) {
        Some(p) => trim(after(t, p + 1)),
        None => t,
    }
}

/// The location, from the line below its heading: what follows the label
/// `Main Location:`, or the whole line where the label is missing.
pub open spec fn location_of(line: Seq<char>) -> Seq<char> {
    let t = trim(line);
    match find(t, "Main Location:"@) {
        Some(p) => trim(after(t, p + "Main Location:"@.len())),
        None => t,
    }
}

/// Whether `c` is one of `0` to `9`.
pub open spec fn is_digit(c: char) -> bool {
    0x30 <= c as u32 <= 0x39
}

/// Whether `s` holds digits only.
pub open spec fn all_digits(s: Seq<char>) -> bool {
    forall|i: int| 0 <= i < s.len() ==> is_digit(#[trigger] s[i])
}

/// The number that the digits of `s` write in base ten.
pub open spec fn decimal_value(s: Seq<char>) -> int
    decreases s.len(),
{
    if s.len() == 0 {
        0
    } else {
        10 * decimal_value(s.drop_last()) + (s.last() as u32 - 0x30)
    }
}

/// The digits of a prefix write a number that is not negative and not
/// greater than the one the whole sequence writes.
pub proof fn lemma_decimal_prefix(d: Seq<char>, k: int)
    requires
        all_digits(d),
        0 <= k <= d.len(),
    ensures
        0 <= decimal_value(d.take(k)) <= decimal_value(d),
    decreases d.len(),
{
    if k == d.len() {
        assert(d.take(k) =~= d);
        if d.len() > 0 {
            lemma_decimal_prefix(d.drop_last(), k - 1);
            assert(d.drop_last().take(k - 1) =~= d.drop_last());
        }
    } else {
        assert(is_digit(d.last()));
        lemma_decimal_prefix(d.drop_last(), k);
        assert(d.drop_last().take(k) =~= d.take(k));
    }
}

/// The digits of a week number: `s` without one leading `+`.
pub open spec fn unsigned_part(s: Seq<char>) -> Seq<char> {
    if s.len() > 0 && s[0] == '+' {
        s.drop_first()
    } else {
        s
    }
}

/// The week number that `s` writes: at least one digit, with or without a
/// `+` before, and a value of at most 255.
pub open spec fn week_value(s: Seq<char>) -> Option<u8> {
    let d = unsigned_part(s);
    if d.len() > 0 && all_digits(d) && decimal_value(d) <= 255 {
        Some(decimal_value(d) as u8)
    } else {
        None
    }
}

/// The text of the week number in a trimmed heading whose first space is at
/// `space` and whose first `/` is at `slash`. A `/` before the space leaves
/// nothing between them.
pub open spec fn week_text(t: Seq<char>, space: int, slash: int) -> Seq<char> {
    if space <= slash {
        trim(t.subrange(space, slash))
    } else {
        Seq::empty()
    }
}

/// What a line says of the week. `None`: it is no week heading (it lacks
/// `Week`, a `/` or a space). `Some(Err(text))`: it is one, and `text` is
/// no week number.
pub open spec fn week_of(line: Seq<char>) -> Option<Result<u8, Seq<char>>> {
    let t = trim(line);
    if !contains(line, "Week"@) {
        None
    } else {
        match (find(t, "/"@), find(t, " "@)) {
            (Some(slash), Some(space)) => {
                let text = week_text(t, space, slash);
                match week_value(text) {
                    Some(n) => Some(Ok(n)),
                    None => Some(Err(text)),
                }
            },
            _ => None,
        }
    }
}

/// The activity that a name, a uniform and a location describe. The first
/// rule that fits decides.
pub open spec fn classify(name: Seq<char>, uod: Seq<char>, location: Seq<char>) -> Result<
    ActivityModel,
    ErrorModel,
> {
    let details = DetailsModel { location: location, uniform: uod };
    if contains(name, "Leadership Laboratory"@) {
        if starts_with(name, "Make Up"@) || starts_with(name, "Make-Up"@) {
            Ok(ActivityModel::MULLAB(details))
        } else if starts_with(name, "GMC"@) {
            Ok(ActivityModel::LLAB(LabAudience::GMC, details))
        } else if starts_with(name, "POC"@) {
            Ok(ActivityModel::LLAB(LabAudience::POC, details))
        } else if starts_with(name, "Joint"@) {
            Ok(ActivityModel::LLAB(LabAudience::Joint, details))
        } else {
            Err(ErrorModel::InvalidLLABAudience(name))
        }
    } else if contains(name, "Physical Training"@) {
        if starts_with(name, "Monday/Tuesday"@) {
            Ok(ActivityModel::PT(PTDay::MT, details))
        } else if starts_with(name, "Wednesday/Thursday"@) {
            Ok(ActivityModel::PT(PTDay::WTH, details))
        } else if contains(name, "Remedial"@) {
            Ok(ActivityModel::PT(PTDay::Remedial, details))
        } else {
            Err(ErrorModel::InvalidPTDay(name))
        }
    } else {
        Ok(ActivityModel::Unknown(details))
    }
}

/// What the scanner looks for, or reads, on the next line.
#[derive(PartialEq, Eq, Structural, Clone, Copy, Debug)]
pub enum Phase {
    ScanMission,
    ReadMissionName,
    ScanUOD,
    ReadUOD,
    ScanLocation,
    ReadLocation,
    ActivityParseComplete,
}

/// The scanner between two lines.
pub struct Scan {
    pub phase: Phase,
    /// The fields of the activity that is being read.
    pub name: Seq<char>,
    pub uod: Seq<char>,
    pub location: Seq<char>,
    /// The week number, once a heading gave it.
    pub week_num: Option<u8>,
    /// The activities that are complete.
    pub activities: Seq<ActivityModel>,
}

/// The scanner before the first line.
pub open spec fn start() -> Scan {
    Scan {
        phase: Phase::ScanMission,
        name: Seq::empty(),
        uod: Seq::empty(),
        location: Seq::empty(),
        week_num: None,
        activities: Seq::empty(),
    }
}

/// Takes the week number from `line`, as long as none is known.
pub open spec fn note_week(st: Scan, line: Seq<char>) -> Result<Scan, ErrorModel> {
    if st.week_num is Some {
        Ok(st)
    } else {
        match week_of(line) {
            None => Ok(st),
            Some(Ok(n)) => Ok(Scan { week_num: Some(n), ..st }),
            Some(Err(text)) => Err(ErrorModel::InvalidWeekNumber(text)),
        }
    }
}

/// Moves the scanner over `line` by the rule of its phase.
pub open spec fn advance(st: Scan, line: Seq<char>) -> Result<Scan, ErrorModel> {
    match st.phase {
        Phase::ScanMission => Ok(
            if is_mission_heading(line) {
                Scan { phase: Phase::ReadMissionName, ..st }
            } else {
                st
            },
        ),
        Phase::ReadMissionName => match name_of(line) {
            Ok(name) => Ok(Scan { phase: Phase::ScanUOD, name: name, ..st }),
            Err(t) => Err(ErrorModel::WeekMisionNameParseFail(t)),
        },
        Phase::ScanUOD => Ok(
            if is_uod_heading(line) {
                Scan { phase: Phase::ReadUOD, ..st }
            } else {
                st
            },
        ),
        Phase::ReadUOD => Ok(Scan { phase: Phase::ScanLocation, uod: uod_of(line), ..st }),
        Phase::ScanLocation => Ok(
            if is_location_heading(line) {
                Scan { phase: Phase::ReadLocation, ..st }
            } else {
                st
            },
        ),
        Phase::ReadLocation => Ok(
            Scan { phase: Phase::ActivityParseComplete, location: location_of(line), ..st },
        ),
        Phase::ActivityParseComplete => match classify(st.name, st.uod, st.location) {
            Ok(activity) => Ok(
                Scan {
                    phase: Phase::ScanMission,
                    name: Seq::empty(),
                    uod: Seq::empty(),
                    location: Seq::empty(),
                    activities: st.activities.push(activity),
                    ..st
                },
            ),
            Err(e) => Err(e),
        },
    }
}

/// One line: first the week, then the phase.
pub open spec fn step(st: Scan, line: Seq<char>) -> Result<Scan, ErrorModel> {
    match note_week(st, line) {
        Ok(noted) => advance(noted, line),
        Err(e) => Err(e),
    }
}

/// The scanner after `lines`, or the error of the first line that failed.
pub open spec fn run(st: Scan, lines: Seq<Seq<char>>) -> Result<Scan, ErrorModel>
    decreases lines.len(),
{
    if lines.len() == 0 {
        Ok(st)
    } else {
        match step(st, lines.first()) {
            Ok(next) => run(next, lines.drop_first()),
            Err(e) => Err(e),
        }
    }
}

/// What the scanner yields at the end of the document.
pub open spec fn finish(st: Scan) -> Result<OpordModel, ErrorModel> {
    if st.phase != Phase::ScanMission {
        Err(ErrorModel::IncompleteParse)
    } else {
        match st.week_num {
            Some(n) => Ok(OpordModel { week_num: n, activities: st.activities }),
            None => Err(ErrorModel::InvalidWeekFormat),
        }
    }
}

/// What a document with these lines yields.
pub open spec fn parse_lines(lines: Seq<Seq<char>>) -> Result<OpordModel, ErrorModel> {
    match run(start(), lines) {
        Ok(st) => finish(st),
        Err(e) => Err(e),
    }
}

/// The index of the first line feed at or after `i`, or the length of
/// `doc` where none follows.
pub open spec fn line_feed(doc: Seq<char>, i: int) -> int
    decreases doc.len() - i,
{
    if 0 <= i < doc.len() && doc[i] != '\n' {
        line_feed(doc, i + 1)
    } else {
        i
    }
}

/// Where the line ends that begins at `i` and whose line feed, or the end
/// of the document, is at `e`: a carriage return before a line feed belongs
/// to the line ending.
pub open spec fn line_stop(doc: Seq<char>, i: int, e: int) -> int {
    if i < e < doc.len() && doc[e - 1] == '\r' {
        e - 1
    } else {
        e
    }
}

/// The lines of `doc` from index `i` on.
pub open spec fn lines_from(doc: Seq<char>, i: int) -> Seq<Seq<char>>
    decreases doc.len() - i,
{
    if 0 <= i < doc.len() {
        let e = line_feed(doc, i);
        let line = doc.subrange(i, line_stop(doc, i, e));
        if i <= e < doc.len() {
            seq![line] + lines_from(doc, e + 1)
        } else {
            seq![line]
        }
    } else {
        Seq::empty()
    }
}

/// `line_feed` stops at the first line feed, or at the end.
pub proof fn lemma_line_feed(doc: Seq<char>, i: int)
    requires
        0 <= i <= doc.len(),
    ensures
        i <= line_feed(doc, i) <= doc.len(),
        forall|k: int| i <= k < line_feed(doc, i) ==> #[trigger] doc[k] != '\n',
        line_feed(doc, i) < doc.len() ==> doc[line_feed(doc, i)] == '\n',
    decreases doc.len() - i,
{
    if i < doc.len() && doc[i] != '\n' {
        lemma_line_feed(doc, i + 1);
    }
}

/// No line holds a line feed.
pub proof fn lemma_lines_hold_no_line_feed(doc: Seq<char>, i: int)
    requires
        0 <= i,
    ensures
        forall|k: int, j: int|
            0 <= k < lines_from(doc, i).len() && 0 <= j < lines_from(doc, i)[k].len() ==> (
            #[trigger] lines_from(doc, i)[k][j]) != '\n',
    decreases doc.len() - i,
{
    if i < doc.len() {
        lemma_line_feed(doc, i);
        let e = line_feed(doc, i);
        let line = doc.subrange(i, line_stop(doc, i, e));
        if e < doc.len() {
            lemma_lines_hold_no_line_feed(doc, e + 1);
            let rest = lines_from(doc, e + 1);
            assert forall|k: int, j: int|
                0 <= k < lines_from(doc, i).len() && 0 <= j < lines_from(
                    doc,
                    i,
                )[k].len() implies (#[trigger] lines_from(doc, i)[k][j]) != '\n' by {
                if k == 0 {
                    assert(line[j] == doc[i + j]);
                } else {
                    assert(lines_from(doc, i)[k] == rest[k - 1]);
                }
            }
        } else {
            assert forall|k: int, j: int|
                0 <= k < lines_from(doc, i).len() && 0 <= j < lines_from(
                    doc,
                    i,
                )[k].len() implies (#[trigger] lines_from(doc, i)[k][j]) != '\n' by {
                assert(line[j] == doc[i + j]);
            }
        }
    }
}

/// The lines of a document. A line ends with a line feed, or with a
/// carriage return and a line feed; neither belongs to the line. The last
/// line needs no ending, and an ending at the end of the document opens no
/// further line.
pub open spec fn lines_of(doc: Seq<char>) -> Seq<Seq<char>> {
    lines_from(doc, 0)
}

/// What a document yields.
pub open spec fn parse_document(doc: Seq<char>) -> Result<OpordModel, ErrorModel> {
    parse_lines(lines_of(doc))
}

} // verus!
