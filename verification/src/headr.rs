//! Bounded extraction: of every source only the head is printed, its first
//! lines or its first bytes. With more than one source, a banner with the
//! source's name stands before each head.

use vstd::prelude::*;
use vstd::string::*;
use crate::report::{ConfigurationError, RunReport};
use crate::source::{reports, Reading, SourceError};
use crate::text::{append, is_numeral, numeral_value, parse_numeral, printed, NEWLINE};

verus! {

/// The line limit where neither limit is given.
pub const DEFAULT_LINES: usize = 10;

/// How much of each source is printed.
#[derive(Clone, Copy, Debug, PartialEq, Eq, Structural)]
pub enum BoundMode {
    /// At most this many lines.
    Lines(usize),
    /// At most this many bytes, whatever lines they make.
    Bytes(usize),
}

/// The mode that two optional limits ask for: the one that is given, ten
/// lines where none is. Two limits at once, and a limit of zero, are refused.
pub open spec fn mode_of_limits(line_limit: Option<usize>, byte_limit: Option<usize>) -> Result<
    BoundMode,
    ConfigurationError,
> {
    match (line_limit, byte_limit) {
        (Some(_), Some(_)) => Err(ConfigurationError::ConflictingLimits),
        (Some(n), None) => if n == 0 {
            Err(ConfigurationError::ZeroLineLimit)
        } else {
            Ok(BoundMode::Lines(n))
        },
        (None, Some(n)) => if n == 0 {
            Err(ConfigurationError::ZeroByteLimit)
        } else {
            Ok(BoundMode::Bytes(n))
        },
        (None, None) => Ok(BoundMode::Lines(DEFAULT_LINES)),
    }
}

impl BoundMode {
    /// The mode that two optional limits ask for.
    pub fn from_limits(line_limit: Option<usize>, byte_limit: Option<usize>) -> (r: Result<
        BoundMode,
        ConfigurationError,
    >)
        ensures
            r == mode_of_limits(line_limit, byte_limit),
    {
        match (line_limit, byte_limit) {
            (Some(_), Some(_)) => Err(ConfigurationError::ConflictingLimits),
            (Some(n), None) => if n == 0 {
                Err(ConfigurationError::ZeroLineLimit)
            } else {
                Ok(BoundMode::Lines(n))
            },
            (None, Some(n)) => if n == 0 {
                Err(ConfigurationError::ZeroByteLimit)
            } else {
                Ok(BoundMode::Bytes(n))
            },
            (None, None) => Ok(BoundMode::Lines(DEFAULT_LINES)),
        }
    }

    /// Whether `reading` was made the way this mode needs: line by line for
    /// a line limit, as raw bytes for a byte limit. A source that could not
    /// be opened was read in no way and agrees with both.
    pub open spec fn agrees_with(&self, reading: Reading) -> bool {
        match reading {
            Reading::Unopened { cause } => true,
            Reading::Lines { lines, failure } => *self is Lines,
            Reading::Bytes { bytes, failure } => *self is Bytes,
        }
    }

    /// Whether `reading` was made the way this mode needs.
    pub fn accepts(&self, reading: &Reading) -> (b: bool)
        ensures
            b == self.agrees_with(*reading),
    {
        match reading {
            Reading::Unopened { cause: _ } => true,
            Reading::Lines { lines: _, failure: _ } => match self {
                BoundMode::Lines(_) => true,
                BoundMode::Bytes(_) => false,
            },
            Reading::Bytes { bytes: _, failure: _ } => match self {
                BoundMode::Lines(_) => false,
                BoundMode::Bytes(_) => true,
            },
        }
    }
}

/// What an extraction run works on: the sources in order, the line limit,
/// and the byte limit that, where it is given, takes the line limit's place.
#[derive(Debug)]
pub struct Config {
    pub files: Vec<String>,
    pub lines: usize,
    pub bytes: Option<usize>,
}

impl Config {
    /// The mode that this configuration asks for, or why it asks for none:
    /// neither limit may be zero.
    pub open spec fn spec_mode(&self) -> Result<BoundMode, ConfigurationError> {
        if self.lines == 0 {
            Err(ConfigurationError::ZeroLineLimit)
        } else {
            match self.bytes {
                Some(b) => mode_of_limits(None, Some(b)),
                None => mode_of_limits(Some(self.lines), None),
            }
        }
    }

    /// The mode that this configuration asks for.
    pub fn mode(&self) -> (r: Result<BoundMode, ConfigurationError>)
        ensures
            r == self.spec_mode(),
    {
        if self.lines == 0 {
            Err(ConfigurationError::ZeroLineLimit)
        } else {
            match self.bytes {
                Some(b) => BoundMode::from_limits(None, Some(b)),
                None => BoundMode::from_limits(Some(self.lines), None),
            }
        }
    }
}

/// The positive number that the bytes of an argument denote, if they denote
/// one that a `usize` holds: an optional plus sign, then decimal digits.
pub open spec fn positive_int(s: Seq<u8>) -> Option<usize> {
    if is_numeral(s) && 0 < numeral_value(s) <= usize::MAX {
        Some(numeral_value(s) as usize)
    } else {
        None
    }
}

/// Reads a positive number. Anything else is handed back as the error.
pub fn parse_positive_int(val: &str) -> (r: Result<usize, String>)
    ensures
        match r {
            Ok(n) => positive_int(val.spec_bytes()) == Some(n),
            Err(e) => e@ == val@ && positive_int(val.spec_bytes()) is None,
        },
{
    match parse_numeral(val.as_bytes()) {
        Some(n) => if n > 0 {
            Ok(n)
        } else {
            Err(String::from_str(val))
        },
        None => Err(String::from_str(val)),
    }
}

/// The complaint about the limits that the command line gave, if one of them
/// is no positive number. The line limit is looked at first.
pub open spec fn args_error(lines: Option<&str>, bytes: Option<&str>) -> Option<Seq<char>> {
    if lines is Some && positive_int(lines.unwrap().spec_bytes()) is None {
        Some("illegal line count -- "@ + lines.unwrap()@)
    } else if bytes is Some && positive_int(bytes.unwrap().spec_bytes()) is None {
        Some("illegal byte count -- "@ + bytes.unwrap()@)
    } else {
        None
    }
}

/// Builds the configuration from what the command line gave: the sources,
/// and the text of each limit that was given. A line limit that was not
/// given is ten.
pub fn get_args(files: Vec<String>, lines: Option<&str>, bytes: Option<&str>) -> (r: Result<
    Config,
    String,
>)
    ensures
        match r {
            Ok(config) => {
                &&& args_error(lines, bytes) is None
                &&& config.files == files
                &&& match lines {
                    Some(v) => positive_int(v.spec_bytes()) == Some(config.lines),
                    None => config.lines == DEFAULT_LINES,
                }
                &&& match bytes {
                    Some(v) => config.bytes is Some && positive_int(v.spec_bytes()) == config.bytes,
                    None => config.bytes is None,
                }
            },
            Err(message) => args_error(lines, bytes) == Some(message@),
        },
{
    let line_limit: usize = match lines {
        Some(v) => match parse_positive_int(v) {
            Ok(n) => n,
            Err(e) => {
                let mut message = String::from_str("illegal line count -- ");
                message.append(e.as_str());
                return Err(message);
            },
        },
        None => DEFAULT_LINES,
    };
    let byte_limit: Option<usize> = match bytes {
        Some(v) => match parse_positive_int(v) {
            Ok(n) => Some(n),
            Err(e) => {
                let mut message = String::from_str("illegal byte count -- ");
                message.append(e.as_str());
                return Err(message);
            },
        },
        None => None,
    };
    Ok(Config { files, lines: line_limit, bytes: byte_limit })
}

/// The first `limit` of `lines`, or all of them where there are no more.
pub open spec fn first_lines(lines: Seq<Seq<u8>>, limit: nat) -> Seq<Seq<u8>> {
    if lines.len() <= limit {
        lines
    } else {
        lines.take(limit as int)
    }
}

/// The first `limit` of `bytes`, or all of them where there are no more.
pub open spec fn first_bytes(bytes: Seq<u8>, limit: nat) -> Seq<u8> {
    if bytes.len() <= limit {
        bytes
    } else {
        bytes.take(limit as int)
    }
}

/// What stands before a source's name in its banner: `==> `.
pub open spec fn banner_open() -> Seq<u8> {
    seq![61u8, 61u8, 62u8, 32u8]
}

/// What stands after a source's name in its banner: ` <==`.
pub open spec fn banner_close() -> Seq<u8> {
    seq![32u8, 60u8, 61u8, 61u8]
}

/// The banner line of a source, with its newline: `==> name <==`.
pub open spec fn banner(identifier: Seq<char>) -> Seq<u8> {
    banner_open() + vstd::utf8::encode_utf8(identifier) + banner_close() + seq![NEWLINE]
}

/// The head of a source that was opened: its first lines, each followed by a
/// newline, under a line limit; its first bytes under a byte limit.
pub open spec fn head(mode: BoundMode, reading: Reading) -> Seq<u8> {
    match (mode, reading) {
        (BoundMode::Lines(limit), Reading::Lines { lines, failure }) => printed(
            first_lines(lines.deep_view(), limit as nat),
        ),
        (BoundMode::Bytes(limit), Reading::Bytes { bytes, failure }) => first_bytes(
            bytes@,
            limit as nat,
        ),
        _ => Seq::empty(),
    }
}

/// What is printed for one source. Nothing for a source that could not be
/// opened. For any other its head, and with several sources a banner before
/// the head, and before the banner an empty line if `preceded` says that an
/// earlier source has been printed already.
pub open spec fn section(
    mode: BoundMode,
    multiple: bool,
    preceded: bool,
    identifier: Seq<char>,
    reading: Reading,
) -> Seq<u8> {
    if reading is Unopened {
        Seq::empty()
    } else if !multiple {
        head(mode, reading)
    } else if preceded {
        seq![NEWLINE] + banner(identifier) + head(mode, reading)
    } else {
        banner(identifier) + head(mode, reading)
    }
}

/// Whether a source of the run has been printed already.
#[derive(Clone, Copy, Debug)]
pub struct BannerState {
    pub shown: bool,
}

impl BannerState {
    /// The state at the start of a run: nothing has been printed.
    pub fn new() -> (state: BannerState)
        ensures
            !state.shown,
    {
        BannerState { shown: false }
    }
}

/// Appends the first lines of `lines` to `out`, each followed by a newline.
fn emit_lines(out: &mut Vec<u8>, lines: &Vec<Vec<u8>>, limit: usize)
    ensures
        final(out)@ == old(out)@ + printed(first_lines(lines.deep_view(), limit as nat)),
{
    let count: usize = if lines.len() <= limit { lines.len() } else { limit };
    let ghost all = lines.deep_view();
    let ghost kept = first_lines(all, limit as nat);
    assert(kept =~= all.take(count as int));
    let mut i: usize = 0;
    assert(kept.take(0).len() == 0);
    assert(old(out)@ + printed(kept.take(0)) =~= old(out)@);
    while i < count
        invariant
            i <= count <= lines.len(),
            all == lines.deep_view(),
            kept == all.take(count as int),
            out@ == old(out)@ + printed(kept.take(i as int)),
        decreases count - i,
    {
        append(out, lines[i].as_slice());
        out.push(NEWLINE);
        assert(kept.take(i + 1).drop_last() =~= kept.take(i as int));
        assert(kept.take(i + 1).last() == lines@[i as int]@);
        assert(out@ =~= old(out)@ + printed(kept.take(i + 1)));
        i += 1;
    }
    assert(kept.take(count as int) =~= kept);
}

/// Appends the first bytes of `bytes` to `out`.
fn emit_bytes(out: &mut Vec<u8>, bytes: &Vec<u8>, limit: usize)
    ensures
        final(out)@ == old(out)@ + first_bytes(bytes@, limit as nat),
{
    let count: usize = if bytes.len() <= limit { bytes.len() } else { limit };
    let mut i: usize = 0;
    assert(old(out)@ + bytes@.take(0) =~= old(out)@);
    while i < count
        invariant
            i <= count <= bytes.len(),
            out@ == old(out)@ + bytes@.take(i as int),
        decreases count - i,
    {
        out.push(bytes[i]);
        assert(bytes@.take(i + 1) =~= bytes@.take(i as int).push(bytes@[i as int]));
        assert(out@ =~= old(out)@ + bytes@.take(i + 1));
        i += 1;
    }
    assert(first_bytes(bytes@, limit as nat) =~= bytes@.take(count as int));
}

/// Appends the banner of `identifier` to `out`.
fn emit_banner(out: &mut Vec<u8>, identifier: &str)
    ensures
        final(out)@ == old(out)@ + banner(identifier@),
{
    out.push(61);
    out.push(61);
    out.push(62);
    out.push(32);
    append(out, identifier.as_bytes());
    out.push(32);
    out.push(60);
    out.push(61);
    out.push(61);
    out.push(NEWLINE);
    assert(out@ =~= old(out)@ + banner(identifier@));
}

/// Gives what is printed for one source, and notes in `state` that a source
/// has been printed. `multiple` says whether the run has several sources.
pub fn emit_bounded(
    identifier: &str,
    reading: &Reading,
    mode: BoundMode,
    state: &mut BannerState,
    multiple: bool,
) -> (out: Vec<u8>)
    requires
        mode.agrees_with(*reading),
    ensures
        out@ == section(mode, multiple, old(state).shown, identifier@, *reading),
        final(state).shown == (old(state).shown || !(reading is Unopened)),
{
    let mut out: Vec<u8> = Vec::new();
    if let Reading::Unopened { cause: _ } = reading {
        return out;
    }
    if multiple {
        if state.shown {
            out.push(NEWLINE);
        }
        emit_banner(&mut out, identifier);
    }
    state.shown = true;
    match reading {
        Reading::Lines { lines, failure: _ } => {
            if let BoundMode::Lines(limit) = mode {
                emit_lines(&mut out, lines, limit);
            }
        },
        Reading::Bytes { bytes, failure: _ } => {
            if let BoundMode::Bytes(limit) = mode {
                emit_bytes(&mut out, bytes, limit);
            }
        },
        Reading::Unopened { cause: _ } => {},
    }
    assert(out@ =~= section(mode, multiple, old(state).shown, identifier@, *reading));
    out
}

/// Whether one of `readings` is of a source that was opened.
pub open spec fn any_opened(readings: Seq<Reading>) -> bool {
    exists|j: int| 0 <= j < readings.len() && !(#[trigger] readings[j] is Unopened)
}

/// The bytes that are printed for a run: the section of each source in
/// order, `files[i]` being the name of the source of `readings[i]`. The run
/// has several sources if `multiple` says so.
pub open spec fn run_output(
    mode: BoundMode,
    multiple: bool,
    files: Seq<String>,
    readings: Seq<Reading>,
) -> Seq<u8>
    decreases readings.len(),
{
    if readings.len() == 0 {
        Seq::empty()
    } else {
        run_output(mode, multiple, files, readings.drop_last()) + section(
            mode,
            multiple,
            any_opened(readings.drop_last()),
            files[readings.len() - 1]@,
            readings.last(),
        )
    }
}

/// Why a run is refused, if it is: a limit is zero, there is not one reading
/// for each source, or a source was read in the way of the other limit.
pub open spec fn run_error(config: Config, readings: Seq<Reading>) -> Option<ConfigurationError> {
    match config.spec_mode() {
        Err(e) => Some(e),
        Ok(mode) => if readings.len() != config.files@.len() {
            Some(ConfigurationError::ReadingCount)
        } else if exists|i: int| 0 <= i < readings.len() && !mode.agrees_with(#[trigger] readings[i]) {
            Some(ConfigurationError::ReadingKind)
        } else {
            None
        },
    }
}

/// Whether `report` is the result of the run of `config` over `readings`.
pub open spec fn is_run_result(config: Config, readings: Seq<Reading>, report: RunReport) -> bool {
    &&& config.spec_mode() matches Ok(mode)
    &&& report.output@ == run_output(mode, config.files@.len() > 1, config.files@, readings)
    &&& report.outcomes@.len() == readings.len()
    &&& forall|i: int|
        0 <= i < readings.len() ==> reports(
            #[trigger] report.outcomes@[i],
            config.files@[i]@,
            readings[i],
        )
}

/// Runs the extraction over all sources: `readings[i]` is what was read from
/// `config.files[i]`. A source that failed is reported and does not stop the
/// others; where it was opened, its banner and what was read of it before
/// the failure are still printed.
pub fn run(config: &Config, readings: &Vec<Reading>) -> (r: Result<RunReport, ConfigurationError>)
    ensures
        match r {
            Ok(report) => run_error(*config, readings@) is None && is_run_result(
                *config,
                readings@,
                report,
            ),
            Err(e) => run_error(*config, readings@) == Some(e),
        },
{
    let mode = match config.mode() {
        Ok(mode) => mode,
        Err(e) => {
            return Err(e);
        },
    };
    if readings.len() != config.files.len() {
        return Err(ConfigurationError::ReadingCount);
    }
    let multiple: bool = config.files.len() > 1;
    let mut state = BannerState::new();
    let mut output: Vec<u8> = Vec::new();
    let mut outcomes: Vec<Option<SourceError>> = Vec::new();
    let mut i: usize = 0;
    while i < readings.len()
        invariant
            i <= readings.len(),
            readings.len() == config.files.len(),
            config.spec_mode() == Ok::<BoundMode, ConfigurationError>(mode),
            multiple == (config.files@.len() > 1),
            forall|j: int| 0 <= j < i ==> mode.agrees_with(#[trigger] readings@[j]),
            state.shown == any_opened(readings@.take(i as int)),
            output@ == run_output(mode, multiple, config.files@, readings@.take(i as int)),
            outcomes.len() == i,
            forall|j: int|
                0 <= j < i ==> reports(#[trigger] outcomes@[j], config.files@[j]@, readings@[j]),
        decreases readings.len() - i,
    {
        let reading = &readings[i];
        if !mode.accepts(reading) {
            assert(!mode.agrees_with(readings@[i as int]));
            return Err(ConfigurationError::ReadingKind);
        }
        let ghost before = readings@.take(i as int);
        let ghost after = readings@.take(i + 1);
        let text = emit_bounded(config.files[i].as_str(), reading, mode, &mut state, multiple);
        append(&mut output, text.as_slice());
        outcomes.push(reading.outcome(config.files[i].as_str()));
        proof {
            assert(after.drop_last() =~= before);
            assert(after.last() == readings@[i as int]);
            if any_opened(before) {
                let j = choose|j: int| 0 <= j < before.len() && !(#[trigger] before[j] is Unopened);
                assert(!(after[j] is Unopened));
            }
            if !(readings@[i as int] is Unopened) {
                assert(!(after[i as int] is Unopened));
            }
            if any_opened(after) {
                let j = choose|j: int| 0 <= j < after.len() && !(#[trigger] after[j] is Unopened);
                if j < i {
                    assert(!(before[j] is Unopened));
                }
            }
        }
        i += 1;
    }
    assert(readings@.take(i as int) =~= readings@);
    Ok(RunReport { output, outcomes })
}

/// Under a line limit no more lines are kept than the limit allows, the
/// lines that are kept are the first lines of the source in their order, and
/// a source with no more lines than the limit is kept whole.
pub proof fn lemma_line_limit(lines: Seq<Seq<u8>>, limit: nat)
    ensures
        first_lines(lines, limit).len() <= limit,
        first_lines(lines, limit).len() <= lines.len(),
        first_lines(lines, limit).len() == limit || first_lines(lines, limit).len() == lines.len(),
        lines.len() <= limit ==> first_lines(lines, limit) == lines,
        forall|i: int|
            0 <= i < first_lines(lines, limit).len() ==> #[trigger] first_lines(lines, limit)[i]
                == lines[i],
{
}

/// Under a byte limit exactly as many bytes are kept as the limit allows and
/// the source has, and they are the first bytes of the source, whatever
/// lines they make.
pub proof fn lemma_byte_limit(bytes: Seq<u8>, limit: nat)
    ensures
        first_bytes(bytes, limit).len() == if limit <= bytes.len() {
            limit
        } else {
            bytes.len()
        },
        forall|i: int|
            0 <= i < first_bytes(bytes, limit).len() ==> #[trigger] first_bytes(bytes, limit)[i]
                == bytes[i],
{
}

} // verus!
