//! What holds of the scanner on every document: which heading decides the
//! week, that each complete activity block yields one activity, in order,
//! that a document cut inside a block is refused, and that classification
//! refuses a name only for a missing audience or day.
use vstd::prelude::*;
use crate::activity::{ActivityModel, DetailsModel, OpordModel, ParsedOpord};
use crate::grammar::{
    all_digits,
    classify,
    decimal_value,
    is_digit,
    is_location_heading,
    is_mission_heading,
    is_uod_heading,
    lemma_decimal_prefix,
    location_of,
    name_of,
    parse_document,
    parse_lines,
    run,
    start,
    step,
    unsigned_part,
    uod_of,
    week_of,
    week_text,
    Phase,
    Scan,
};
use crate::opord_parser::{outcome, OpordParser};
use crate::parser_error::{ErrorModel, OpordParserError};
use crate::text::{
    all_whitespace,
    contains,
    is_whitespace,
    lemma_contains,
    lemma_find_first,
    lemma_trim_padded,
    matches_at,
    starts_with,
};

verus! {

/// Goes on over `lines` from the scanner that `r` holds, if it holds one.
pub open spec fn then_run(r: Result<Scan, ErrorModel>, lines: Seq<Seq<char>>) -> Result<
    Scan,
    ErrorModel,
> {
    match r {
        Ok(st) => run(st, lines),
        Err(e) => Err(e),
    }
}

/// Scanning two runs of lines one after the other is scanning them as one.
pub proof fn lemma_run_concat(st: Scan, a: Seq<Seq<char>>, b: Seq<Seq<char>>)
    ensures
        run(st, a + b) == then_run(run(st, a), b),
    decreases a.len(),
{
    if a.len() == 0 {
        assert(a + b =~= b);
    } else {
        assert((a + b).first() == a.first());
        assert((a + b).drop_first() =~= a.drop_first() + b);
        match step(st, a.first()) {
            Ok(next) => lemma_run_concat(next, a.drop_first(), b),
            Err(_) => {},
        }
    }
}

/// Scanning one line is one step.
pub proof fn lemma_run_one(st: Scan, line: Seq<char>)
    ensures
        run(st, seq![line]) == step(st, line),
{
    reveal_with_fuel(run, 2);
    assert(seq![line].first() == line);
    assert(seq![line].drop_first() =~= Seq::<Seq<char>>::empty());
}

/// Scanning a line and then more lines.
pub proof fn lemma_run_cons(st: Scan, line: Seq<char>, rest: Seq<Seq<char>>)
    ensures
        run(st, seq![line] + rest) == then_run(step(st, line), rest),
{
    lemma_run_concat(st, seq![line], rest);
    lemma_run_one(st, line);
}

/// Once the week number is known, no later line changes it.
pub proof fn lemma_week_kept(st: Scan, lines: Seq<Seq<char>>)
    requires
        st.week_num is Some,
    ensures
        run(st, lines) matches Ok(end) ==> end.week_num == st.week_num,
    decreases lines.len(),
{
    if lines.len() > 0 {
        match step(st, lines.first()) {
            Ok(next) => lemma_week_kept(next, lines.drop_first()),
            Err(_) => {},
        }
    }
}

/// The first week heading of a document decides its week number: where no
/// week is known yet, the lines before line `i` are no week headings and
/// line `i` gives the number `n`, the scanner ends with `n`.
pub proof fn lemma_week_found(st: Scan, lines: Seq<Seq<char>>, i: int, n: u8)
    requires
        st.week_num is None,
        0 <= i < lines.len(),
        forall|j: int| 0 <= j < i ==> week_of(#[trigger] lines[j]) is None,
        week_of(lines[i]) == Some(Ok::<u8, Seq<char>>(n)),
    ensures
        run(st, lines) matches Ok(end) ==> end.week_num == Some(n),
    decreases lines.len(),
{
    match step(st, lines.first()) {
        Ok(next) => {
            if i == 0 {
                lemma_week_kept(next, lines.drop_first());
            } else {
                assert(week_of(lines[0]) is None);
                assert forall|j: int| 0 <= j < i - 1 implies week_of(
                    #[trigger] lines.drop_first()[j],
                ) is None by {
                    assert(lines.drop_first()[j] == lines[j + 1]);
                }
                lemma_week_found(next, lines.drop_first(), i - 1, n);
            }
        },
        Err(_) => {},
    }
}

/// A document that is read has the week number of its first week heading.
pub proof fn lemma_week_of_document(lines: Seq<Seq<char>>, i: int, n: u8)
    requires
        0 <= i < lines.len(),
        forall|j: int| 0 <= j < i ==> week_of(#[trigger] lines[j]) is None,
        week_of(lines[i]) == Some(Ok::<u8, Seq<char>>(n)),
    ensures
        parse_lines(lines) matches Ok(opord) ==> opord.week_num == n,
{
    lemma_week_found(start(), lines, i, n);
}

/// The heading `Week`, a space, some digits and a `/`, with white space
/// around it or without, gives the number that the digits write, whatever
/// follows the `/`.
pub proof fn lemma_week_heading(
    lead: Seq<char>,
    digits: Seq<char>,
    rest: Seq<char>,
    trail: Seq<char>,
)
    requires
        all_whitespace(lead),
        all_whitespace(trail),
        digits.len() > 0,
        all_digits(digits),
        decimal_value(digits) <= 255,
        rest.len() > 0 ==> !is_whitespace(rest.last()),
    ensures
        week_of(lead + ("Week "@ + digits + "/"@ + rest) + trail) == Some(
            Ok::<u8, Seq<char>>(decimal_value(digits) as u8),
        ),
{
    reveal_strlit("Week ");
    reveal_strlit("Week");
    reveal_strlit("/");
    reveal_strlit(" ");
    let core = "Week "@ + digits + "/"@ + rest;
    let line = lead + core + trail;
    let n = digits.len() as int;
    assert(core.len() == 6 + n + rest.len());
    assert(core[0] == 'W' && core[1] == 'e' && core[2] == 'e' && core[3] == 'k' && core[4] == ' ');
    assert forall|k: int| 0 <= k < n implies core[5 + k] == digits[k] by {}
    assert(core[5 + n] == '/');
    assert(core.last() == if rest.len() > 0 {
        rest.last()
    } else {
        '/'
    });
    lemma_trim_padded(lead, core, trail);
    // The line holds `Week`.
    let at = lead.len() as int;
    assert(line.subrange(at, at + 4) =~= "Week"@);
    assert(matches_at(line, "Week"@, at));
    lemma_contains(line, "Week"@);
    // The first `/` stands behind the digits.
    assert(core.subrange(5 + n, 6 + n) =~= "/"@);
    assert forall|j: int| 0 <= j < 5 + n implies !matches_at(core, "/"@, j) by {
        if matches_at(core, "/"@, j) {
            assert(core.subrange(j, j + 1)[0] == '/');
            if j >= 5 {
                assert(is_digit(digits[j - 5]));
            }
        }
    }
    lemma_find_first(core, "/"@, 5 + n);
    // The first space stands behind `Week`.
    assert(core.subrange(4, 5) =~= " "@);
    assert forall|j: int| 0 <= j < 4 implies !matches_at(core, " "@, j) by {
        if matches_at(core, " "@, j) {
            assert(core.subrange(j, j + 1)[0] == ' ');
        }
    }
    lemma_find_first(core, " "@, 4);
    // Between them stand a space and the digits.
    assert(core.subrange(4, 5 + n) =~= seq![' '] + digits + Seq::<char>::empty());
    assert(is_digit(digits.first()) && is_digit(digits.last()));
    lemma_trim_padded(seq![' '], digits, Seq::<char>::empty());
    assert(week_text(core, 4, 5 + n) == digits);
    assert(unsigned_part(digits) == digits);
}

/// A document that is read, and whose first week heading is `Week`, a
/// space, some digits and a `/`, has the week number that the digits write.
pub proof fn lemma_week_of_heading(
    lines: Seq<Seq<char>>,
    i: int,
    lead: Seq<char>,
    digits: Seq<char>,
    rest: Seq<char>,
    trail: Seq<char>,
)
    requires
        0 <= i < lines.len(),
        forall|j: int| 0 <= j < i ==> week_of(#[trigger] lines[j]) is None,
        lines[i] == lead + ("Week "@ + digits + "/"@ + rest) + trail,
        all_whitespace(lead),
        all_whitespace(trail),
        digits.len() > 0,
        all_digits(digits),
        decimal_value(digits) <= 255,
        rest.len() > 0 ==> !is_whitespace(rest.last()),
    ensures
        parse_lines(lines) matches Ok(opord) ==> opord.week_num == decimal_value(digits),
{
    lemma_decimal_prefix(digits, digits.len() as int);
    lemma_week_heading(lead, digits, rest, trail);
    lemma_week_of_document(lines, i, decimal_value(digits) as u8);
}

/// Without a week heading no week number is found.
pub proof fn lemma_week_not_found(st: Scan, lines: Seq<Seq<char>>)
    requires
        st.week_num is None,
        forall|j: int| 0 <= j < lines.len() ==> week_of(#[trigger] lines[j]) is None,
    ensures
        run(st, lines) matches Ok(end) ==> end.week_num is None,
    decreases lines.len(),
{
    if lines.len() > 0 {
        match step(st, lines.first()) {
            Ok(next) => {
                assert(week_of(lines[0]) is None);
                assert forall|j: int| 0 <= j < lines.drop_first().len() implies week_of(
                    #[trigger] lines.drop_first()[j],
                ) is None by {
                    assert(lines.drop_first()[j] == lines[j + 1]);
                }
                lemma_week_not_found(next, lines.drop_first());
            },
            Err(_) => {},
        }
    }
}

/// A document without a week heading is refused.
pub proof fn lemma_week_needed(lines: Seq<Seq<char>>)
    requires
        forall|j: int| 0 <= j < lines.len() ==> week_of(#[trigger] lines[j]) is None,
    ensures
        parse_lines(lines) is Err,
{
    lemma_week_not_found(start(), lines);
}

/// Whether `line` is the heading that a scanner in `phase` waits for. A
/// phase that reads takes any line.
pub open spec fn awaited(phase: Phase, line: Seq<char>) -> bool {
    match phase {
        Phase::ScanMission => is_mission_heading(line),
        Phase::ScanUOD => is_uod_heading(line),
        Phase::ScanLocation => is_location_heading(line),
        _ => true,
    }
}

/// Whether no line of `lines` is the heading that `phase` waits for.
pub open spec fn none_awaited(phase: Phase, lines: Seq<Seq<char>>) -> bool {
    forall|j: int| 0 <= j < lines.len() ==> !awaited(phase, #[trigger] lines[j])
}

/// Lines that are not the awaited heading are skipped: they change nothing
/// but, at most, the week number.
pub proof fn lemma_skip(st: Scan, lines: Seq<Seq<char>>)
    requires
        none_awaited(st.phase, lines),
    ensures
        run(st, lines) matches Ok(end) ==> end == (Scan { week_num: end.week_num, ..st }),
    decreases lines.len(),
{
    if lines.len() > 0 {
        assert(!awaited(st.phase, lines[0]));
        match step(st, lines.first()) {
            Ok(next) => {
                assert(next == Scan { week_num: next.week_num, ..st });
                assert forall|j: int| 0 <= j < lines.drop_first().len() implies !awaited(
                    next.phase,
                    #[trigger] lines.drop_first()[j],
                ) by {
                    assert(lines.drop_first()[j] == lines[j + 1]);
                }
                lemma_skip(next, lines.drop_first());
            },
            Err(_) => {},
        }
    }
}

/// Whether `e` is one of the errors that a single line can raise.
pub open spec fn raised_on_line(e: ErrorModel) -> bool {
    ||| e is InvalidWeekNumber
    ||| e is WeekMisionNameParseFail
    ||| e is InvalidLLABAudience
    ||| e is InvalidPTDay
}

/// The scanner fails on a line only for its week number, its mission name
/// or the classification of an activity.
pub proof fn lemma_errors_of_run(st: Scan, lines: Seq<Seq<char>>)
    ensures
        run(st, lines) matches Err(e) ==> raised_on_line(e),
    decreases lines.len(),
{
    if lines.len() > 0 {
        match step(st, lines.first()) {
            Ok(next) => lemma_errors_of_run(next, lines.drop_first()),
            Err(_) => {},
        }
    }
}

/// A document is refused for what a line raised, for being cut off, or
/// for want of a week number; never for the form of a location.
pub proof fn lemma_errors_of_parse(lines: Seq<Seq<char>>)
    ensures
        parse_lines(lines) matches Err(e) ==> raised_on_line(e) || e
            == ErrorModel::IncompleteParse || e == ErrorModel::InvalidWeekFormat,
        !(parse_lines(lines) matches Err(e) && e is InvalidLocationFormat),
{
    lemma_errors_of_run(start(), lines);
}

/// A document whose last activity is not complete is refused as cut off.
pub proof fn lemma_cut_off(lines: Seq<Seq<char>>)
    requires
        run(start(), lines) matches Ok(end) && end.phase != Phase::ScanMission,
    ensures
        parse_lines(lines) == Err::<OpordModel, ErrorModel>(ErrorModel::IncompleteParse),
{
}

/// A document that ends while the scanner waits for the heading of the
/// uniform or of the location is refused: where the scanner has come to
/// such a phase after `read` and none of the lines in `rest` is that
/// heading, the whole is refused, and as cut off unless a line failed
/// before.
pub proof fn lemma_cut_while_waiting(read: Seq<Seq<char>>, rest: Seq<Seq<char>>)
    requires
        run(start(), read) matches Ok(mid) && (mid.phase == Phase::ScanUOD || mid.phase
            == Phase::ScanLocation) && none_awaited(mid.phase, rest),
    ensures
        parse_lines(read + rest) is Err,
        run(start(), read + rest) is Ok ==> parse_lines(read + rest) == Err::<
            OpordModel,
            ErrorModel,
        >(ErrorModel::IncompleteParse),
{
    lemma_run_concat(start(), read, rest);
    lemma_skip(run(start(), read)->Ok_0, rest);
}

/// A name without `Leadership Laboratory` and without `Physical Training`
/// is an unknown activity, never an error.
pub proof fn lemma_classify_unknown(name: Seq<char>, uod: Seq<char>, location: Seq<char>)
    requires
        !contains(name, "Leadership Laboratory"@),
        !contains(name, "Physical Training"@),
    ensures
        classify(name, uod, location) == Ok::<ActivityModel, ErrorModel>(
            ActivityModel::Unknown(DetailsModel { location: location, uniform: uod }),
        ),
{
}

/// Classification decides every name. A name with `Leadership Laboratory`
/// is a laboratory or a make-up laboratory, or refused for its audience; a
/// name without it and with `Physical Training` is a training session, or
/// refused for its day. The laboratory rule comes first, and the details
/// are the location and the uniform as given.
pub proof fn lemma_classify_total(name: Seq<char>, uod: Seq<char>, location: Seq<char>)
    ensures
        contains(name, "Leadership Laboratory"@) ==> match classify(name, uod, location) {
            Ok(ActivityModel::LLAB(_, d)) => d == (DetailsModel {
                location: location,
                uniform: uod,
            }),
            Ok(ActivityModel::MULLAB(d)) => d == (DetailsModel {
                location: location,
                uniform: uod,
            }),
            Ok(_) => false,
            Err(e) => e == ErrorModel::InvalidLLABAudience(name),
        },
        !contains(name, "Leadership Laboratory"@) && contains(name, "Physical Training"@)
            ==> match classify(name, uod, location) {
            Ok(ActivityModel::PT(_, d)) => d == (DetailsModel { location: location, uniform: uod }),
            Ok(_) => false,
            Err(e) => e == ErrorModel::InvalidPTDay(name),
        },
{
}

/// A laboratory whose name begins with `Make Up` or `Make-Up` is a make-up
/// laboratory, whatever audience the name goes on to mention.
pub proof fn lemma_classify_make_up(name: Seq<char>, uod: Seq<char>, location: Seq<char>)
    requires
        contains(name, "Leadership Laboratory"@),
        starts_with(name, "Make Up"@) || starts_with(name, "Make-Up"@),
    ensures
        classify(name, uod, location) == Ok::<ActivityModel, ErrorModel>(
            ActivityModel::MULLAB(DetailsModel { location: location, uniform: uod }),
        ),
{
}

/// One complete activity block of a document, line by line.
pub struct Block {
    /// The lines before the mission heading; none of them is one.
    pub before: Seq<Seq<char>>,
    pub mission_heading: Seq<char>,
    /// The line that gives the name.
    pub name: Seq<char>,
    /// The lines up to the heading of the uniform; none of them is one.
    pub to_uod: Seq<Seq<char>>,
    pub uod_heading: Seq<char>,
    /// The line that gives the uniform.
    pub uod: Seq<char>,
    /// The lines up to the heading of the location; none of them is one.
    pub to_location: Seq<Seq<char>>,
    pub location_heading: Seq<char>,
    /// The line that gives the location.
    pub location: Seq<char>,
    /// The line after the location, on which the activity is classified.
    pub closing: Seq<char>,
}

/// Whether the lines of `b` are what their places ask for.
pub open spec fn is_block(b: Block) -> bool {
    &&& none_awaited(Phase::ScanMission, b.before)
    &&& is_mission_heading(b.mission_heading)
    &&& none_awaited(Phase::ScanUOD, b.to_uod)
    &&& is_uod_heading(b.uod_heading)
    &&& none_awaited(Phase::ScanLocation, b.to_location)
    &&& is_location_heading(b.location_heading)
}

/// The lines of a block, in order.
pub open spec fn block_lines(b: Block) -> Seq<Seq<char>> {
    b.before + (seq![b.mission_heading] + (seq![b.name] + (b.to_uod + (seq![b.uod_heading] + (
    seq![b.uod] + (b.to_location + (seq![b.location_heading] + (seq![b.location]
        + seq![b.closing]))))))))
}

/// The activity that a block describes.
pub open spec fn block_activity(b: Block) -> Result<ActivityModel, ErrorModel> {
    match name_of(b.name) {
        Ok(name) => classify(name, uod_of(b.uod), location_of(b.location)),
        Err(t) => Err(ErrorModel::WeekMisionNameParseFail(t)),
    }
}

/// The lines of some blocks, one block after the other.
pub open spec fn blocks_lines(blocks: Seq<Block>) -> Seq<Seq<char>>
    decreases blocks.len(),
{
    if blocks.len() == 0 {
        Seq::empty()
    } else {
        block_lines(blocks.first()) + blocks_lines(blocks.drop_first())
    }
}

/// A scanner that waits for a mission heading and gets over a complete
/// block has added the activity of that block, and nothing else, and waits
/// for the next mission heading.
pub proof fn lemma_block(st: Scan, b: Block)
    requires
        st.phase == Phase::ScanMission,
        is_block(b),
        run(st, block_lines(b)) is Ok,
    ensures
        block_activity(b) is Ok,
        run(st, block_lines(b))->Ok_0.phase == Phase::ScanMission,
        run(st, block_lines(b))->Ok_0.activities == st.activities.push(block_activity(b)->Ok_0),
{
    let l9 = seq![b.closing];
    let l8 = seq![b.location] + l9;
    let l7 = seq![b.location_heading] + l8;
    let l6 = b.to_location + l7;
    let l5 = seq![b.uod] + l6;
    let l4 = seq![b.uod_heading] + l5;
    let l3 = b.to_uod + l4;
    let l2 = seq![b.name] + l3;
    let l1 = seq![b.mission_heading] + l2;
    lemma_run_concat(st, b.before, l1);
    lemma_skip(st, b.before);
    let s0 = run(st, b.before)->Ok_0;
    lemma_run_cons(s0, b.mission_heading, l2);
    let s1 = step(s0, b.mission_heading)->Ok_0;
    assert(s1.phase == Phase::ReadMissionName);
    lemma_run_cons(s1, b.name, l3);
    let s2 = step(s1, b.name)->Ok_0;
    assert(s2.phase == Phase::ScanUOD);
    lemma_run_concat(s2, b.to_uod, l4);
    lemma_skip(s2, b.to_uod);
    let s3 = run(s2, b.to_uod)->Ok_0;
    lemma_run_cons(s3, b.uod_heading, l5);
    let s4 = step(s3, b.uod_heading)->Ok_0;
    assert(s4.phase == Phase::ReadUOD);
    lemma_run_cons(s4, b.uod, l6);
    let s5 = step(s4, b.uod)->Ok_0;
    assert(s5.phase == Phase::ScanLocation);
    lemma_run_concat(s5, b.to_location, l7);
    lemma_skip(s5, b.to_location);
    let s6 = run(s5, b.to_location)->Ok_0;
    lemma_run_cons(s6, b.location_heading, l8);
    let s7 = step(s6, b.location_heading)->Ok_0;
    assert(s7.phase == Phase::ReadLocation);
    lemma_run_cons(s7, b.location, l9);
    let s8 = step(s7, b.location)->Ok_0;
    assert(s8.phase == Phase::ActivityParseComplete);
    lemma_run_one(s8, b.closing);
    assert(s8.activities == st.activities);
}

/// A scanner that waits for a mission heading and gets over some complete
/// blocks has added one activity for each block, in the order of the
/// blocks, and waits for the next mission heading.
pub proof fn lemma_blocks(st: Scan, blocks: Seq<Block>)
    requires
        st.phase == Phase::ScanMission,
        forall|k: int| 0 <= k < blocks.len() ==> is_block(#[trigger] blocks[k]),
        run(st, blocks_lines(blocks)) is Ok,
    ensures
        run(st, blocks_lines(blocks))->Ok_0.phase == Phase::ScanMission,
        run(st, blocks_lines(blocks))->Ok_0.activities.len() == st.activities.len()
            + blocks.len(),
        forall|k: int|
            0 <= k < st.activities.len() ==> #[trigger] run(
                st,
                blocks_lines(blocks),
            )->Ok_0.activities[k] == st.activities[k],
        forall|k: int|
            0 <= k < blocks.len() ==> block_activity(#[trigger] blocks[k]) == Ok::<
                ActivityModel,
                ErrorModel,
            >(run(st, blocks_lines(blocks))->Ok_0.activities[st.activities.len() + k]),
    decreases blocks.len(),
{
    if blocks.len() > 0 {
        let b = blocks.first();
        let rest = blocks.drop_first();
        lemma_run_concat(st, block_lines(b), blocks_lines(rest));
        assert(is_block(blocks[0]));
        lemma_block(st, b);
        let mid = run(st, block_lines(b))->Ok_0;
        assert forall|k: int| 0 <= k < rest.len() implies is_block(#[trigger] rest[k]) by {
            assert(rest[k] == blocks[k + 1]);
        }
        lemma_blocks(mid, rest);
        let end = run(mid, blocks_lines(rest))->Ok_0;
        assert forall|k: int| 0 <= k < st.activities.len() implies end.activities[k]
            == st.activities[k] by {
            assert(end.activities[k] == mid.activities[k]);
        }
        assert forall|k: int| 0 <= k < blocks.len() implies block_activity(#[trigger] blocks[k])
            == Ok::<ActivityModel, ErrorModel>(end.activities[st.activities.len() + k]) by {
            if k == 0 {
                let at = st.activities.len() as int;
                assert(end.activities[at] == mid.activities[at]);
            } else {
                assert(blocks[k] == rest[k - 1]);
            }
        }
    }
}

/// A document of complete blocks, with lines after the last one that hold
/// no mission heading, yields as many activities as it has blocks, and the
/// activity at each place is that of the block at that place.
pub proof fn lemma_one_activity_per_block(blocks: Seq<Block>, trailing: Seq<Seq<char>>)
    requires
        forall|k: int| 0 <= k < blocks.len() ==> is_block(#[trigger] blocks[k]),
        none_awaited(Phase::ScanMission, trailing),
        parse_lines(blocks_lines(blocks) + trailing) is Ok,
    ensures
        parse_lines(blocks_lines(blocks) + trailing)->Ok_0.activities.len() == blocks.len(),
        forall|k: int|
            0 <= k < blocks.len() ==> block_activity(#[trigger] blocks[k]) == Ok::<
                ActivityModel,
                ErrorModel,
            >(parse_lines(blocks_lines(blocks) + trailing)->Ok_0.activities[k]),
{
    lemma_run_concat(start(), blocks_lines(blocks), trailing);
    lemma_blocks(start(), blocks);
    lemma_skip(run(start(), blocks_lines(blocks))->Ok_0, trailing);
}

/// Whether `line` is no week heading with a text that is no number.
pub open spec fn quiet_line(line: Seq<char>) -> bool {
    !(week_of(line) matches Some(Err(_)))
}

/// Whether every line of `lines` is quiet.
pub open spec fn quiet(lines: Seq<Seq<char>>) -> bool {
    forall|j: int| 0 <= j < lines.len() ==> quiet_line(#[trigger] lines[j])
}

/// Whether `b` is a block that nothing is wrong with: its lines are what
/// their places ask for, none of them is a week heading without a number,
/// and its activity can be classified.
pub open spec fn is_sound_block(b: Block) -> bool {
    &&& is_block(b)
    &&& quiet(b.before)
    &&& quiet_line(b.mission_heading)
    &&& quiet_line(b.name)
    &&& quiet(b.to_uod)
    &&& quiet_line(b.uod_heading)
    &&& quiet_line(b.uod)
    &&& quiet(b.to_location)
    &&& quiet_line(b.location_heading)
    &&& quiet_line(b.location)
    &&& quiet_line(b.closing)
    &&& block_activity(b) is Ok
}

/// Quiet lines that are not the awaited heading are got over.
pub proof fn lemma_skip_ok(st: Scan, lines: Seq<Seq<char>>)
    requires
        none_awaited(st.phase, lines),
        quiet(lines),
    ensures
        run(st, lines) is Ok,
    decreases lines.len(),
{
    if lines.len() > 0 {
        assert(!awaited(st.phase, lines[0]));
        assert(quiet_line(lines[0]));
        let next = step(st, lines.first())->Ok_0;
        assert forall|j: int| 0 <= j < lines.drop_first().len() implies !awaited(
            next.phase,
            #[trigger] lines.drop_first()[j],
        ) && quiet_line(lines.drop_first()[j]) by {
            assert(lines.drop_first()[j] == lines[j + 1]);
        }
        lemma_skip_ok(next, lines.drop_first());
    }
}

/// A scanner that waits for a mission heading gets over a sound block.
pub proof fn lemma_block_ok(st: Scan, b: Block)
    requires
        st.phase == Phase::ScanMission,
        is_sound_block(b),
    ensures
        run(st, block_lines(b)) is Ok,
{
    let l9 = seq![b.closing];
    let l8 = seq![b.location] + l9;
    let l7 = seq![b.location_heading] + l8;
    let l6 = b.to_location + l7;
    let l5 = seq![b.uod] + l6;
    let l4 = seq![b.uod_heading] + l5;
    let l3 = b.to_uod + l4;
    let l2 = seq![b.name] + l3;
    let l1 = seq![b.mission_heading] + l2;
    lemma_run_concat(st, b.before, l1);
    lemma_skip(st, b.before);
    lemma_skip_ok(st, b.before);
    let s0 = run(st, b.before)->Ok_0;
    lemma_run_cons(s0, b.mission_heading, l2);
    let s1 = step(s0, b.mission_heading)->Ok_0;
    assert(s1.phase == Phase::ReadMissionName);
    lemma_run_cons(s1, b.name, l3);
    let s2 = step(s1, b.name)->Ok_0;
    assert(s2.phase == Phase::ScanUOD);
    lemma_run_concat(s2, b.to_uod, l4);
    lemma_skip(s2, b.to_uod);
    lemma_skip_ok(s2, b.to_uod);
    let s3 = run(s2, b.to_uod)->Ok_0;
    lemma_run_cons(s3, b.uod_heading, l5);
    let s4 = step(s3, b.uod_heading)->Ok_0;
    assert(s4.phase == Phase::ReadUOD);
    lemma_run_cons(s4, b.uod, l6);
    let s5 = step(s4, b.uod)->Ok_0;
    assert(s5.phase == Phase::ScanLocation);
    lemma_run_concat(s5, b.to_location, l7);
    lemma_skip(s5, b.to_location);
    lemma_skip_ok(s5, b.to_location);
    let s6 = run(s5, b.to_location)->Ok_0;
    lemma_run_cons(s6, b.location_heading, l8);
    let s7 = step(s6, b.location_heading)->Ok_0;
    assert(s7.phase == Phase::ReadLocation);
    lemma_run_cons(s7, b.location, l9);
    let s8 = step(s7, b.location)->Ok_0;
    assert(s8.phase == Phase::ActivityParseComplete);
    assert(s8.name == name_of(b.name)->Ok_0);
    assert(s8.uod == uod_of(b.uod));
    assert(s8.location == location_of(b.location));
    lemma_run_one(s8, b.closing);
}

/// A scanner that waits for a mission heading gets over sound blocks.
pub proof fn lemma_blocks_ok(st: Scan, blocks: Seq<Block>)
    requires
        st.phase == Phase::ScanMission,
        forall|k: int| 0 <= k < blocks.len() ==> is_sound_block(#[trigger] blocks[k]),
    ensures
        run(st, blocks_lines(blocks)) is Ok,
    decreases blocks.len(),
{
    if blocks.len() > 0 {
        let b = blocks.first();
        let rest = blocks.drop_first();
        assert(is_sound_block(blocks[0]));
        lemma_run_concat(st, block_lines(b), blocks_lines(rest));
        lemma_block_ok(st, b);
        lemma_block(st, b);
        assert forall|k: int| 0 <= k < rest.len() implies is_sound_block(#[trigger] rest[k]) by {
            assert(rest[k] == blocks[k + 1]);
        }
        lemma_blocks_ok(run(st, block_lines(b))->Ok_0, rest);
    }
}

/// A scanner that gets over a week heading with a number knows the week.
pub proof fn lemma_week_known(st: Scan, lines: Seq<Seq<char>>, i: int)
    requires
        0 <= i < lines.len(),
        week_of(lines[i]) matches Some(Ok(_)),
    ensures
        run(st, lines) matches Ok(end) ==> end.week_num is Some,
    decreases lines.len(),
{
    match step(st, lines.first()) {
        Ok(next) => {
            if next.week_num is Some {
                lemma_week_kept(next, lines.drop_first());
            } else {
                assert(i > 0);
                assert(lines.drop_first()[i - 1] == lines[i]);
                lemma_week_known(next, lines.drop_first(), i - 1);
            }
        },
        Err(_) => {},
    }
}

/// A document of sound blocks, with quiet lines after the last one that
/// hold no mission heading, and with a week heading that gives a number at
/// some line `i`, is read.
pub proof fn lemma_sound_document_is_read(
    blocks: Seq<Block>,
    trailing: Seq<Seq<char>>,
    i: int,
)
    requires
        forall|k: int| 0 <= k < blocks.len() ==> is_sound_block(#[trigger] blocks[k]),
        none_awaited(Phase::ScanMission, trailing),
        quiet(trailing),
        0 <= i < (blocks_lines(blocks) + trailing).len(),
        week_of((blocks_lines(blocks) + trailing)[i]) matches Some(Ok(_)),
    ensures
        parse_lines(blocks_lines(blocks) + trailing) is Ok,
{
    let lines = blocks_lines(blocks) + trailing;
    lemma_run_concat(start(), blocks_lines(blocks), trailing);
    lemma_blocks_ok(start(), blocks);
    assert forall|k: int| 0 <= k < blocks.len() implies is_block(#[trigger] blocks[k]) by {
        assert(is_sound_block(blocks[k]));
    }
    lemma_blocks(start(), blocks);
    let mid = run(start(), blocks_lines(blocks))->Ok_0;
    lemma_skip_ok(mid, trailing);
    lemma_skip(mid, trailing);
    lemma_week_known(start(), lines, i);
}

/// The lines of a block up to the heading of its location, without that
/// heading.
pub open spec fn cut_after_uod(b: Block) -> Seq<Seq<char>> {
    b.before + (seq![b.mission_heading] + (seq![b.name] + (b.to_uod + (seq![b.uod_heading] + (
    seq![b.uod] + b.to_location)))))
}

/// A document whose last block is cut off behind the line of the uniform,
/// with no heading of the location after it, is refused.
pub proof fn lemma_cut_after_uod(blocks: Seq<Block>, last: Block)
    requires
        forall|k: int| 0 <= k < blocks.len() ==> is_block(#[trigger] blocks[k]),
        is_block(last),
    ensures
        parse_lines(blocks_lines(blocks) + cut_after_uod(last)) is Err,
        run(start(), blocks_lines(blocks) + cut_after_uod(last)) is Ok ==> parse_lines(
            blocks_lines(blocks) + cut_after_uod(last),
        ) == Err::<OpordModel, ErrorModel>(ErrorModel::IncompleteParse),
{
    let b = last;
    lemma_run_concat(start(), blocks_lines(blocks), cut_after_uod(last));
    if run(start(), blocks_lines(blocks)) is Ok {
        lemma_blocks(start(), blocks);
        let st = run(start(), blocks_lines(blocks))->Ok_0;
        let l6 = b.to_location;
        let l5 = seq![b.uod] + l6;
        let l4 = seq![b.uod_heading] + l5;
        let l3 = b.to_uod + l4;
        let l2 = seq![b.name] + l3;
        let l1 = seq![b.mission_heading] + l2;
        lemma_run_concat(st, b.before, l1);
        lemma_skip(st, b.before);
        if run(st, b.before) is Ok {
            let s0 = run(st, b.before)->Ok_0;
            lemma_run_cons(s0, b.mission_heading, l2);
            if step(s0, b.mission_heading) is Ok {
                let s1 = step(s0, b.mission_heading)->Ok_0;
                lemma_run_cons(s1, b.name, l3);
                if step(s1, b.name) is Ok {
                    let s2 = step(s1, b.name)->Ok_0;
                    lemma_run_concat(s2, b.to_uod, l4);
                    lemma_skip(s2, b.to_uod);
                    if run(s2, b.to_uod) is Ok {
                        let s3 = run(s2, b.to_uod)->Ok_0;
                        lemma_run_cons(s3, b.uod_heading, l5);
                        if step(s3, b.uod_heading) is Ok {
                            let s4 = step(s3, b.uod_heading)->Ok_0;
                            lemma_run_cons(s4, b.uod, l6);
                            if step(s4, b.uod) is Ok {
                                let s5 = step(s4, b.uod)->Ok_0;
                                lemma_skip(s5, b.to_location);
                            }
                        }
                    }
                }
            }
        }
    }
}

/// Reading the same text twice yields the same: the results that two
/// parsers over equal texts give stand for the same value.
pub proof fn lemma_reparse<'a, 'b>(
    first: OpordParser<'a>,
    second: OpordParser<'b>,
    a: Result<ParsedOpord<'a>, OpordParserError>,
    b: Result<ParsedOpord<'b>, OpordParserError>,
)
    requires
        first@ == second@,
        outcome(a) == parse_document(first@),
        outcome(b) == parse_document(second@),
    ensures
        outcome(a) == outcome(b),
{
}

} // verus!
