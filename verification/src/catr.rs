//! Numbering: every line of every source is printed, with a number in front
//! of all lines, of the non-blank lines only, or of none.

use vstd::prelude::*;
use crate::report::{ConfigurationError, RunReport};
use crate::source::{reports, Reading, SourceError};
use crate::text::{
    append, decimal, field_value, is_digit, lemma_field_round_trip, print_lines, printed,
    right_align, right_aligned, write_decimal, SPACE, TAB,
};

verus! {

/// The width of the field that holds a line's number.
pub const NUMBER_WIDTH: usize = 6;

/// Which lines get a number.
#[derive(Clone, Copy, Debug, PartialEq, Eq, Structural)]
pub enum NumberingMode {
    /// No line is numbered: the lines are copied.
    Plain,
    /// Every line is numbered.
    All,
    /// The lines that are not empty are numbered, and counted by themselves.
    NonBlank,
}

/// The mode that two flags ask for, or `None` where they ask for both kinds
/// of numbering at once.
pub open spec fn mode_of_flags(number_all: bool, number_nonblank: bool) -> Option<NumberingMode> {
    if number_all && number_nonblank {
        None
    } else if number_all {
        Some(NumberingMode::All)
    } else if number_nonblank {
        Some(NumberingMode::NonBlank)
    } else {
        Some(NumberingMode::Plain)
    }
}

impl NumberingMode {
    /// The mode that two flags ask for. Both at once are refused.
    pub fn from_flags(number_all: bool, number_nonblank: bool) -> (r: Result<
        NumberingMode,
        ConfigurationError,
    >)
        ensures
            match r {
                Ok(mode) => mode_of_flags(number_all, number_nonblank) == Some(mode),
                Err(e) => e == ConfigurationError::ConflictingNumbering && mode_of_flags(
                    number_all,
                    number_nonblank,
                ) is None,
            },
    {
        if number_all && number_nonblank {
            Err(ConfigurationError::ConflictingNumbering)
        } else if number_all {
            Ok(NumberingMode::All)
        } else if number_nonblank {
            Ok(NumberingMode::NonBlank)
        } else {
            Ok(NumberingMode::Plain)
        }
    }
}

/// What a numbering run works on: the sources in order, and the two flags.
#[derive(Debug)]
pub struct Config {
    pub files: Vec<String>,
    pub number_lines: bool,
    pub number_nonblank_lines: bool,
}

impl Config {
    /// The mode that this configuration asks for, if it asks for one.
    pub open spec fn spec_mode(&self) -> Option<NumberingMode> {
        mode_of_flags(self.number_lines, self.number_nonblank_lines)
    }

    /// The mode that this configuration asks for.
    pub fn mode(&self) -> (r: Result<NumberingMode, ConfigurationError>)
        ensures
            match r {
                Ok(mode) => self.spec_mode() == Some(mode),
                Err(e) => e == ConfigurationError::ConflictingNumbering && self.spec_mode() is None,
            },
    {
        NumberingMode::from_flags(self.number_lines, self.number_nonblank_lines)
    }
}

/// Builds the configuration from what the command line gave: the sources and
/// the two flags. Flags that ask for both kinds of numbering are refused.
pub fn get_args(files: Vec<String>, number_lines: bool, number_nonblank_lines: bool) -> (r: Result<
    Config,
    ConfigurationError,
>)
    ensures
        match r {
            Ok(config) => {
                &&& config.files == files
                &&& config.number_lines == number_lines
                &&& config.number_nonblank_lines == number_nonblank_lines
                &&& config.spec_mode() is Some
            },
            Err(e) => e == ConfigurationError::ConflictingNumbering && number_lines
                && number_nonblank_lines,
        },
{
    if number_lines && number_nonblank_lines {
        Err(ConfigurationError::ConflictingNumbering)
    } else {
        Ok(Config { files, number_lines, number_nonblank_lines })
    }
}

/// The field in front of a numbered line: the number, right-aligned in
/// `NUMBER_WIDTH` bytes, then a tab.
pub open spec fn number_field(n: nat) -> Seq<u8> {
    right_aligned(decimal(n), NUMBER_WIDTH as nat) + seq![TAB]
}

/// How many of `lines` are not empty.
pub open spec fn nonblank_count(lines: Seq<Seq<u8>>) -> nat
    decreases lines.len(),
{
    if lines.len() == 0 {
        0
    } else {
        nonblank_count(lines.drop_last()) + if lines.last().len() == 0 {
            0nat
        } else {
            1nat
        }
    }
}

/// The text that is printed for `line` when `seen` lines of its source came
/// before it, `nonblank_seen` of them not empty.
pub open spec fn emitted(mode: NumberingMode, seen: nat, nonblank_seen: nat, line: Seq<u8>) -> Seq<u8> {
    match mode {
        NumberingMode::Plain => line,
        NumberingMode::All => number_field(seen + 1) + line,
        NumberingMode::NonBlank => if line.len() == 0 {
            line
        } else {
            number_field(nonblank_seen + 1) + line
        },
    }
}

/// The text that is printed for the line at index `i` of a source.
pub open spec fn emitted_line(mode: NumberingMode, lines: Seq<Seq<u8>>, i: int) -> Seq<u8>
    recommends
        0 <= i < lines.len(),
{
    emitted(mode, i as nat, nonblank_count(lines.take(i)), lines[i])
}

/// The lines that are printed for a source: one for each of its lines.
pub open spec fn emitted_lines(mode: NumberingMode, lines: Seq<Seq<u8>>) -> Seq<Seq<u8>> {
    Seq::new(lines.len(), |i: int| emitted_line(mode, lines, i))
}

/// The counters of one source: how many of its lines were seen, and how many
/// of those were not empty. They start at zero with every source.
#[derive(Clone, Copy, Debug)]
pub struct EmissionState {
    pub seen: usize,
    pub nonblank_seen: usize,
}

impl EmissionState {
    /// The counters at the start of a source.
    pub fn new() -> (state: EmissionState)
        ensures
            state.seen == 0,
            state.nonblank_seen == 0,
    {
        EmissionState { seen: 0, nonblank_seen: 0 }
    }

    /// Takes the next line of the source: counts it and gives the text that
    /// is printed for it.
    pub fn emit(&mut self, mode: NumberingMode, line: &Vec<u8>) -> (text: Vec<u8>)
        requires
            old(self).nonblank_seen <= old(self).seen < usize::MAX,
        ensures
            text@ == emitted(mode, old(self).seen as nat, old(self).nonblank_seen as nat, line@),
            final(self).seen == old(self).seen + 1,
            final(self).nonblank_seen == old(self).nonblank_seen + if line@.len() == 0 {
                0int
            } else {
                1int
            },
    {
        self.seen = self.seen + 1;
        let blank: bool = line.len() == 0;
        if !blank {
            self.nonblank_seen = self.nonblank_seen + 1;
        }
        let number: Option<usize> = match mode {
            NumberingMode::Plain => None,
            NumberingMode::All => Some(self.seen),
            NumberingMode::NonBlank => if blank {
                None
            } else {
                Some(self.nonblank_seen)
            },
        };
        let mut text: Vec<u8> = match number {
            Some(n) => {
                let mut field = right_align(&write_decimal(n), NUMBER_WIDTH);
                field.push(TAB);
                field
            },
            None => Vec::new(),
        };
        append(&mut text, line.as_slice());
        assert(number is None ==> text@ =~= line@);
        text
    }
}

/// Numbers the lines of one source.
pub fn number_lines(lines: &Vec<Vec<u8>>, mode: NumberingMode) -> (out: Vec<Vec<u8>>)
    ensures
        out.deep_view() == emitted_lines(mode, lines.deep_view()),
{
    let ghost all = lines.deep_view();
    let mut out: Vec<Vec<u8>> = Vec::new();
    let mut state = EmissionState::new();
    let mut i: usize = 0;
    assert(all.take(0).len() == 0);
    while i < lines.len()
        invariant
            i <= lines.len(),
            all == lines.deep_view(),
            state.seen == i,
            state.nonblank_seen == nonblank_count(all.take(i as int)),
            state.nonblank_seen <= state.seen,
            out.len() == i,
            forall|j: int| 0 <= j < i ==> (#[trigger] out@[j])@ == emitted_line(mode, all, j),
        decreases lines.len() - i,
    {
        let text = state.emit(mode, &lines[i]);
        out.push(text);
        assert(all.take(i + 1).drop_last() =~= all.take(i as int));
        assert(all.take(i + 1).last() == lines@[i as int]@);
        i += 1;
    }
    assert(out.deep_view() =~~= emitted_lines(mode, all));
    out
}

/// The bytes that are printed for one source: its lines, numbered as `mode`
/// says, each followed by a newline.
pub open spec fn numbered_output(mode: NumberingMode, lines: Seq<Seq<u8>>) -> Seq<u8> {
    printed(emitted_lines(mode, lines))
}

/// Numbers the lines of one source and prints them.
pub fn emit_numbered(lines: &Vec<Vec<u8>>, mode: NumberingMode) -> (out: Vec<u8>)
    ensures
        out@ == numbered_output(mode, lines.deep_view()),
{
    let numbered = number_lines(lines, mode);
    print_lines(&numbered)
}

/// The bytes that are printed for one source: its numbered lines where it
/// was read as lines, nothing where it could not be opened.
pub open spec fn source_output(mode: NumberingMode, reading: Reading) -> Seq<u8> {
    match reading {
        Reading::Lines { lines, failure } => numbered_output(mode, lines.deep_view()),
        _ => Seq::empty(),
    }
}

/// The bytes that are printed for a run: those of each source in order.
pub open spec fn run_output(mode: NumberingMode, readings: Seq<Reading>) -> Seq<u8>
    decreases readings.len(),
{
    if readings.len() == 0 {
        Seq::empty()
    } else {
        run_output(mode, readings.drop_last()) + source_output(mode, readings.last())
    }
}

/// Why a run is refused, if it is: the flags conflict, there is not one
/// reading for each source, or a source was read as raw bytes.
pub open spec fn run_error(config: Config, readings: Seq<Reading>) -> Option<ConfigurationError> {
    if config.spec_mode() is None {
        Some(ConfigurationError::ConflictingNumbering)
    } else if readings.len() != config.files@.len() {
        Some(ConfigurationError::ReadingCount)
    } else if exists|i: int| 0 <= i < readings.len() && #[trigger] readings[i] is Bytes {
        Some(ConfigurationError::ReadingKind)
    } else {
        None
    }
}

/// Whether `report` is the result of the run of `config` over `readings`.
pub open spec fn is_run_result(config: Config, readings: Seq<Reading>, report: RunReport) -> bool {
    &&& config.spec_mode() matches Some(mode)
    &&& report.output@ == run_output(mode, readings)
    &&& report.outcomes@.len() == readings.len()
    &&& forall|i: int|
        0 <= i < readings.len() ==> reports(
            #[trigger] report.outcomes@[i],
            config.files@[i]@,
            readings[i],
        )
}

/// Runs the numbering over all sources: `readings[i]` is what was read from
/// `config.files[i]`. A source that failed is reported and does not stop the
/// others; what was read of it before the failure is still printed.
pub fn run(config: &Config, readings: &Vec<Reading>) -> (r: Result<RunReport, ConfigurationError>)
    ensures
        match r {
            Ok(report) => run_error(*config, readings@) is None && is_run_result(
                *config,
                readings@,
                report,
            ),
            Err(e) => run_error(*config, readings@) == Some(e),
        },
{
    let mode = match config.mode() {
        Ok(mode) => mode,
        Err(e) => {
            return Err(e);
        },
    };
    if readings.len() != config.files.len() {
        return Err(ConfigurationError::ReadingCount);
    }
    let mut output: Vec<u8> = Vec::new();
    let mut outcomes: Vec<Option<SourceError>> = Vec::new();
    let mut i: usize = 0;
    while i < readings.len()
        invariant
            i <= readings.len(),
            readings.len() == config.files.len(),
            config.spec_mode() == Some(mode),
            forall|j: int| 0 <= j < i ==> !(#[trigger] readings@[j] is Bytes),
            output@ == run_output(mode, readings@.take(i as int)),
            outcomes.len() == i,
            forall|j: int|
                0 <= j < i ==> reports(#[trigger] outcomes@[j], config.files@[j]@, readings@[j]),
        decreases readings.len() - i,
    {
        let reading = &readings[i];
        match reading {
            Reading::Bytes { bytes: _, failure: _ } => {
                assert(readings@[i as int] is Bytes);
                return Err(ConfigurationError::ReadingKind);
            },
            Reading::Lines { lines, failure: _ } => {
                let text = emit_numbered(lines, mode);
                append(&mut output, text.as_slice());
            },
            Reading::Unopened { cause: _ } => {},
        }
        outcomes.push(reading.outcome(config.files[i].as_str()));
        assert(readings@.take(i + 1).drop_last() =~= readings@.take(i as int));
        assert(output@ =~= run_output(mode, readings@.take(i + 1)));
        i += 1;
    }
    assert(readings@.take(i as int) =~= readings@);
    Ok(RunReport { output, outcomes })
}

/// With every line numbered, the line at index `i` of a source is printed as
/// a field, a tab and the line itself, where the field holds nothing but
/// spaces and the digits of `i + 1`. The number depends on the line's place
/// in its own source only.
pub proof fn lemma_all_lines_numbered(lines: Seq<Seq<u8>>, i: int)
    requires
        0 <= i < lines.len(),
    ensures
        ({
            let field = right_aligned(decimal((i + 1) as nat), NUMBER_WIDTH as nat);
            &&& emitted_lines(NumberingMode::All, lines)[i] == field + seq![TAB] + lines[i]
            &&& field_value(field) == i + 1
            &&& forall|k: int| 0 <= k < field.len() ==> #[trigger] field[k] != TAB
        }),
{
    let field = right_aligned(decimal((i + 1) as nat), NUMBER_WIDTH as nat);
    lemma_field_round_trip((i + 1) as nat, NUMBER_WIDTH as nat);
    assert forall|k: int| 0 <= k < field.len() implies #[trigger] field[k] != TAB by {
        assert(field[k] == SPACE || is_digit(field[k]));
    }
}

/// With the non-blank lines numbered, an empty line is printed empty and
/// leaves the count as it was; a line that is not empty is printed with one
/// more than the count of the non-empty lines before it.
pub proof fn lemma_blank_lines_not_counted(lines: Seq<Seq<u8>>, i: int)
    requires
        0 <= i < lines.len(),
    ensures
        ({
            let before = nonblank_count(lines.take(i));
            let after = nonblank_count(lines.take(i + 1));
            let field = right_aligned(decimal(after), NUMBER_WIDTH as nat);
            if lines[i].len() == 0 {
                &&& emitted_lines(NumberingMode::NonBlank, lines)[i] == Seq::<u8>::empty()
                &&& after == before
            } else {
                &&& emitted_lines(NumberingMode::NonBlank, lines)[i] == field + seq![TAB] + lines[i]
                &&& field_value(field) == after
                &&& after == before + 1
            }
        }),
{
    assert(lines.take(i + 1).drop_last() =~= lines.take(i));
    assert(lines.take(i + 1).last() == lines[i]);
    lemma_field_round_trip(nonblank_count(lines.take(i + 1)), NUMBER_WIDTH as nat);
    assert(emitted_lines(NumberingMode::NonBlank, lines)[i] =~= emitted_line(
        NumberingMode::NonBlank,
        lines,
        i,
    ));
}

/// With no numbering, every line is printed as it is.
pub proof fn lemma_plain_copies(lines: Seq<Seq<u8>>)
    ensures
        emitted_lines(NumberingMode::Plain, lines) == lines,
{
    assert(emitted_lines(NumberingMode::Plain, lines) =~= lines);
}

/// What is printed for some sources followed by others is what is printed
/// for the first, followed by what is printed for the second: every source
/// is numbered from one, whatever came before it.
pub proof fn lemma_run_output_concat(mode: NumberingMode, a: Seq<Reading>, b: Seq<Reading>)
    ensures
        run_output(mode, a + b) == run_output(mode, a) + run_output(mode, b),
    decreases b.len(),
{
    if b.len() == 0 {
        assert(a + b =~= a);
        assert(run_output(mode, a) + run_output(mode, b) =~= run_output(mode, a));
    } else {
        lemma_run_output_concat(mode, a, b.drop_last());
        assert((a + b).drop_last() =~= a + b.drop_last());
        assert((a + b).last() == b.last());
        assert(run_output(mode, a + b) =~= run_output(mode, a) + run_output(mode, b));
    }
}

/// Two runs of one configuration over the same readings print the same
/// bytes and report the same failures.
pub proof fn lemma_run_is_repeatable(
    config: Config,
    readings: Seq<Reading>,
    first: RunReport,
    second: RunReport,
)
    requires
        is_run_result(config, readings, first),
        is_run_result(config, readings, second),
    ensures
        first.output@ == second.output@,
        first.outcomes@.len() == second.outcomes@.len(),
        forall|i: int|
            0 <= i < readings.len() ==> match (
                #[trigger] first.outcomes@[i],
                second.outcomes@[i],
            ) {
                (None, None) => true,
                (Some(e1), Some(e2)) => e1.identifier@ == e2.identifier@ && e1.stage == e2.stage
                    && e1.cause@ == e2.cause@,
                _ => false,
            },
{
    assert forall|i: int| 0 <= i < readings.len() implies match (
        #[trigger] first.outcomes@[i],
        second.outcomes@[i],
    ) {
        (None, None) => true,
        (Some(e1), Some(e2)) => e1.identifier@ == e2.identifier@ && e1.stage == e2.stage
            && e1.cause@ == e2.cause@,
        _ => false,
    } by {
        assert(reports(first.outcomes@[i], config.files@[i]@, readings[i]));
        assert(reports(second.outcomes@[i], config.files@[i]@, readings[i]));
    }
}

} // verus!
