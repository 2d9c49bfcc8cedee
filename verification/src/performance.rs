//! Opt-in interaction latency diagnostics.
//!
//! A truthy value of the environment variable turns the diagnostics on. The
//! normal path does not read the clock.

use crate::text;
use crate::time::Moment;
use vstd::prelude::*;
use vstd::string::StrSliceExecFns;
use vstd::string::StringExecFns;

verus! {

/// `c` in lower case, if it is an ASCII letter.
pub open spec fn ascii_lower(c: char) -> char {
    if 'A' <= c <= 'Z' {
        (c as u32 + 32) as char
    } else {
        c
    }
}

/// `s` with its ASCII letters in lower case.
pub open spec fn ascii_lowered(s: Seq<char>) -> Seq<char> {
    s.map_values(|c: char| ascii_lower(c))
}

/// Whether an environment value turns the diagnostics on.
pub open spec fn is_truthy(value: Option<Seq<char>>) -> bool {
    match value {
        Some(value) => {
            let word = ascii_lowered(value);
            word == "1"@ || word == "true"@ || word == "yes"@ || word == "on"@
        },
        None => false,
    }
}

fn matches_lowered(s: &str, word: &str) -> (equal: bool)
    requires
        forall|i: int| 0 <= i < word@.len() ==> 'a' <= #[trigger] word@[i] <= 'z' || word@[i] == '1',
    ensures
        equal == (ascii_lowered(s@) == word@),
{
    let len: usize = s.unicode_len();
    if len != word.unicode_len() {
        return false;
    }
    let mut i: usize = 0;
    while i < len
        invariant
            i <= len == s@.len(),
            s@.len() == word@.len(),
            forall|i: int| 0 <= i < word@.len() ==> 'a' <= #[trigger] word@[i] <= 'z' || word@[i]
                == '1',
            forall|k: int| 0 <= k < i ==> ascii_lower(#[trigger] s@[k]) == word@[k],
        decreases len - i,
    {
        let c: char = s.get_char(i);
        let w: char = word.get_char(i);
        let same: bool = if 'A' <= c && c <= 'Z' {
            c as u32 + 32 == w as u32
        } else {
            c == w
        };
        if !same {
            assert(ascii_lowered(s@)[i as int] == ascii_lower(c));
            assert(ascii_lower(c) != w);
            return false;
        }
        assert(ascii_lower(s@[i as int]) == word@[i as int]);
        i += 1;
    }
    assert(ascii_lowered(s@) =~= word@);
    true
}

/// Whether an environment value turns the diagnostics on: `1`, `true`, `yes` or
/// `on`, in any case.
pub fn enabled_from(value: Option<&str>) -> (enabled: bool)
    ensures
        enabled == is_truthy(text::optional_str(value)),
{
    proof {
        reveal_strlit("1");
        reveal_strlit("true");
        reveal_strlit("yes");
        reveal_strlit("on");
    }
    match value {
        Some(value) => matches_lowered(value, "1") || matches_lowered(value, "true")
            || matches_lowered(value, "yes") || matches_lowered(value, "on"),
        None => false,
    }
}

/// A duration in whole microseconds, rounded up, so that no nonzero sample reads
/// as zero.
pub open spec fn rounded_up_micros(nanos: int) -> int {
    (nanos + 999) / 1000
}

/// A duration of `nanos` nanoseconds in microseconds, rounded up.
pub fn elapsed_micros(nanos: u64) -> (micros: u64)
    ensures
        micros == rounded_up_micros(nanos as int),
        micros == 0 <==> nanos == 0,
{
    if nanos == 0 {
        0
    } else {
        (nanos - 1) / 1000 + 1
    }
}

/// Cheap, copyable gate and common origin for one process's measurements.
#[derive(Debug, Clone, Copy)]
pub struct PerformanceLogger {
    enabled: bool,
    process_started: Option<Moment>,
}

/// One sample's log line.
pub open spec fn sample_text(metric: Seq<char>, nanos: int, fields: Seq<char>) -> Seq<char> {
    "metric="@ + metric + " duration_us="@ + text::decimal_of(rounded_up_micros(nanos) as nat)
        + " "@ + fields
}

impl PerformanceLogger {
    /// Whether samples are taken.
    pub closed spec fn on(&self) -> bool {
        self.enabled
    }

    /// When the process started, if samples are taken.
    pub closed spec fn origin(&self) -> Option<Moment> {
        self.process_started
    }

    /// Gate the diagnostics on an environment value; `clock` is read only if they
    /// are on.
    pub fn from_value<F: FnOnce() -> Moment>(value: Option<&str>, clock: F) -> (logger: Self)
        requires
            call_requires(clock, ()),
        ensures
            logger.on() == is_truthy(text::optional_str(value)),
            logger.on() <==> logger.origin() is Some,
            logger.on() ==> call_ensures(clock, (), logger.origin()->0),
    {
        if enabled_from(value) {
            PerformanceLogger { enabled: true, process_started: Some(clock()) }
        } else {
            PerformanceLogger { enabled: false, process_started: None }
        }
    }

    /// Start a sample only when diagnostics are enabled, avoiding clock reads in
    /// the default render and input paths.
    pub fn start<F: FnOnce() -> Moment>(&self, clock: F) -> (started: Option<Moment>)
        requires
            call_requires(clock, ()),
        ensures
            started is Some <==> self.on(),
            started is Some ==> call_ensures(clock, (), started->0),
    {
        if self.enabled {
            Some(clock())
        } else {
            None
        }
    }

    /// The log line of a sample that began at `started`, if one did; `clock` is
    /// read only then.
    pub fn record_since<F: FnOnce() -> Moment>(
        &self,
        metric: &str,
        started: Option<Moment>,
        fields: &str,
        clock: F,
    ) -> (line: Option<String>)
        requires
            call_requires(clock, ()),
        ensures
            started is None ==> line is None,
            started is Some ==> line is Some && exists|now: Moment| #[trigger]
                call_ensures(clock, (), now) && line->0@ == sample_text(
                    metric@,
                    now.since_spec(started->0),
                    fields@,
                ),
    {
        match started {
            Some(started) => {
                let now: Moment = clock();
                Some(record(metric, now.since(started), fields))
            },
            None => None,
        }
    }

    /// The log line of a measured duration in nanoseconds, if there is one.
    pub fn record_duration(&self, metric: &str, elapsed: Option<u64>, fields: &str) -> (line: Option<
        String,
    >)
        ensures
            text::optional(line) == match elapsed {
                Some(nanos) => Some(sample_text(metric@, nanos as int, fields@)),
                None => None,
            },
    {
        match elapsed {
            Some(nanos) => Some(record(metric, nanos, fields)),
            None => None,
        }
    }

    /// The log line of the time since the process started, if samples are taken.
    pub fn record_process_elapsed<F: FnOnce() -> Moment>(
        &self,
        metric: &str,
        fields: &str,
        clock: F,
    ) -> (line: Option<String>)
        requires
            call_requires(clock, ()),
        ensures
            self.origin() is None ==> line is None,
            self.origin() is Some ==> line is Some && exists|now: Moment| #[trigger]
                call_ensures(clock, (), now) && line->0@ == sample_text(
                    metric@,
                    now.since_spec(self.origin()->0),
                    fields@,
                ),
    {
        self.record_since(metric, self.process_started, fields, clock)
    }
}

fn record(metric: &str, nanos: u64, fields: &str) -> (line: String)
    ensures
        line@ == sample_text(metric@, nanos as int, fields@),
{
    let mut line: String = text::joined("metric=", metric);
    line.append(" duration_us=");
    line.append(text::decimal(elapsed_micros(nanos)).as_str());
    line.append(" ");
    line.append(fields);
    line
}

/// No nonzero duration reads as zero, and none reads a microsecond long.
pub proof fn lemma_micros_round_up(nanos: int)
    requires
        0 <= nanos,
    ensures
        nanos > 0 ==> rounded_up_micros(nanos) > 0,
        1000 * rounded_up_micros(nanos) - 1000 < nanos <= 1000 * rounded_up_micros(nanos),
{
}

/// The words that turn the diagnostics on do so in any case, and an empty or missing value
/// does not.
pub proof fn lemma_words_turn_the_diagnostics_on(value: Option<&str>, enabled: bool)
    requires
        call_ensures(enabled_from, (value,), enabled),
    ensures
        value is None || value->0@.len() == 0 || value->0@.len() > 4 ==> !enabled,
        value is Some && value->0@ == "1"@ ==> enabled,
        value is Some && value->0@ == "0"@ ==> !enabled,
        value is Some && value->0@.len() == 2 && (value->0@[0] == 'o' || value->0@[0] == 'O') && (
        value->0@[1] == 'n' || value->0@[1] == 'N') ==> enabled,
        value is Some && value->0@.len() == 4 && (value->0@[0] == 't' || value->0@[0] == 'T') && (
        value->0@[1] == 'r' || value->0@[1] == 'R') && (value->0@[2] == 'u' || value->0@[2] == 'U')
            && (value->0@[3] == 'e' || value->0@[3] == 'E') ==> enabled,
        value is Some && value->0@.len() == 3 && (value->0@[0] == 'y' || value->0@[0] == 'Y') && (
        value->0@[1] == 'e' || value->0@[1] == 'E') && (value->0@[2] == 's' || value->0@[2] == 'S')
            ==> enabled,
{
    reveal_strlit("1");
    reveal_strlit("0");
    reveal_strlit("true");
    reveal_strlit("yes");
    reveal_strlit("on");
    if value is Some {
        let given = value->0@;
        let word = ascii_lowered(given);
        assert(word.len() == given.len());
        assert(forall|i: int| 0 <= i < given.len() ==> #[trigger] word[i] == ascii_lower(given[i]));
        assert(('O' as u32 + 32) as char == 'o');
        assert(('N' as u32 + 32) as char == 'n');
        assert(('T' as u32 + 32) as char == 't');
        assert(('R' as u32 + 32) as char == 'r');
        assert(('U' as u32 + 32) as char == 'u');
        assert(('E' as u32 + 32) as char == 'e');
        assert(('Y' as u32 + 32) as char == 'y');
        assert(('S' as u32 + 32) as char == 's');
        if given == "1"@ {
            assert(word =~= "1"@);
        }
        if given == "0"@ {
            assert(word[0] == '0');
            assert(word.len() == 1);
        }
        if given.len() == 2 && (given[0] == 'o' || given[0] == 'O') && (given[1] == 'n' || given[1]
            == 'N') {
            assert(word =~= "on"@);
        }
        if given.len() == 4 && (given[0] == 't' || given[0] == 'T') && (given[1] == 'r' || given[1]
            == 'R') && (given[2] == 'u' || given[2] == 'U') && (given[3] == 'e' || given[3]
            == 'E') {
            assert(word =~= "true"@);
        }
        if given.len() == 3 && (given[0] == 'y' || given[0] == 'Y') && (given[1] == 'e' || given[1]
            == 'E') && (given[2] == 's' || given[2] == 'S') {
            assert(word =~= "yes"@);
        }
    }
}

/// A duration in microseconds is no shorter than it was, by less than one.
pub proof fn lemma_durations_round_up(nanos: u64, micros: u64)
    requires
        call_ensures(elapsed_micros, (nanos,), micros),
    ensures
        nanos <= 1000 * micros < nanos + 1000,
{
}

/// The line of a measured duration names the metric, tells it in microseconds and ends with
/// the fields; without a duration there is none.
pub proof fn lemma_a_sample_tells_its_duration(
    logger: PerformanceLogger,
    metric: &str,
    elapsed: Option<u64>,
    fields: &str,
    line: Option<String>,
    micros: u64,
)
    requires
        call_ensures(PerformanceLogger::record_duration, (&logger, metric, elapsed, fields), line),
        elapsed is Some ==> call_ensures(elapsed_micros, (elapsed->0,), micros),
    ensures
        line is Some <==> elapsed is Some,
        line is Some ==> line->0@ == "metric="@ + metric@ + " duration_us="@ + text::decimal_of(
            micros as nat,
        ) + " "@ + fields@,
{
}

/// The clock is read exactly where the diagnostics are on.
pub proof fn lemma_samples_are_taken_where_they_are_on<F: FnOnce() -> Moment, G: FnOnce() -> Moment>(
    value: Option<&str>,
    clock: F,
    logger: PerformanceLogger,
    later: G,
    started: Option<Moment>,
    enabled: bool,
)
    requires
        call_ensures(PerformanceLogger::from_value::<F>, (value, clock), logger),
        call_ensures(PerformanceLogger::start::<G>, (&logger, later), started),
        call_ensures(enabled_from, (value,), enabled),
    ensures
        started is Some <==> enabled,
        logger.origin() is Some <==> enabled,
        started is Some ==> call_ensures(later, (), started->0),
{
}

} // verus!
