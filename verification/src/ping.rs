//! The ping monitor: its configuration, the per-run message processor that
//! collects round-trip observations from probe output lines, and the
//! finalization step that aggregates them into metrics and classifies the
//! run into a status color.

use vstd::prelude::*;

verus! {

use crate::expressions::{calc_bool_v, digit_val, is_digit, lemma_num_val_nonneg, num_val};
use crate::metrics::MetricsMap;
use crate::numfmt::{dec_int, i64_to_string};
use crate::strutil::{
    contains_pat, find_from, find_from_x, lemma_find_from_first, match_at, str_to_chars,
    subvec_chars,
};
use crate::expressions::calculate_bool;
use crate::numfmt::sat_i64;
use crate::value::{Value, ValueV};
use vstd::string::StringExecFns;

/// One sample from a single probe run: an optional round-trip time in
/// microseconds, and whether the probe reply was received.
#[derive(Debug, Clone, Copy)]
pub struct PingResult {
    pub rtt_us: Option<u64>,
    pub received: bool,
}

// ---------------------------------------------------------------------------
// Sample-line parsing
// ---------------------------------------------------------------------------

/// The marker that introduces a round-trip time in probe output.
pub open spec fn time_eq_marker() -> Seq<char> {
    seq!['t', 'i', 'm', 'e', '=']
}

/// The marker for a reply under one millisecond.
pub open spec fn sub_ms_marker_a() -> Seq<char> {
    seq!['t', 'i', 'm', 'e', '<', '1', 'm', 's']
}

/// The marker for a reply under one millisecond, with a space.
pub open spec fn sub_ms_marker_b() -> Seq<char> {
    seq!['t', 'i', 'm', 'e', '<', '1', ' ', 'm', 's']
}

/// A digit or a decimal point.
pub open spec fn digit_or_dot(c: char) -> bool {
    is_digit(c) || c == '.'
}

/// The first position at or after `i` whose character is neither digit nor
/// decimal point (or the end of input).
pub open spec fn scan_time_end(s: Seq<char>, i: int) -> int
    decreases s.len() - i,
    when 0 <= i <= s.len()
{
    if i < s.len() && digit_or_dot(s[i]) {
        scan_time_end(s, i + 1)
    } else {
        i
    }
}

/// The position of the first decimal point of `part`, or its length.
pub open spec fn dot_of(part: Seq<char>) -> int {
    match find_from(part, seq!['.'], 0) {
        Some(d) => d,
        None => part.len() as int,
    }
}

/// Whether a run of digits and dots reads as one decimal number: non-empty,
/// at most one dot, and at least one digit.
pub open spec fn valid_decimal(part: Seq<char>) -> bool {
    let d = dot_of(part);
    &&& part.len() > 0
    &&& (forall|k: int| d < k < part.len() ==> part[k] != '.')
    &&& (d == part.len() || part.len() >= 2)
}

/// The microseconds contributed by the fractional digits of a millisecond
/// value; digits past the third are truncated away.
pub open spec fn frac_us(f: Seq<char>) -> int {
    (if f.len() >= 1 {
        digit_val(f[0]) * 100
    } else {
        0
    }) + (if f.len() >= 2 {
        digit_val(f[1]) * 10
    } else {
        0
    }) + (if f.len() >= 3 {
        digit_val(f[2])
    } else {
        0
    })
}

/// The value of a decimal number of milliseconds, in whole microseconds.
pub open spec fn decimal_ms_to_us(part: Seq<char>) -> int {
    let d = dot_of(part);
    num_val(part, 0, d) * 1000 + frac_us(
        if d < part.len() {
            part.subrange(d + 1, part.len() as int)
        } else {
            Seq::empty()
        },
    )
}

/// Saturation at the largest `usize`.
pub open spec fn sat_usize(x: int) -> int {
    if x > usize::MAX {
        usize::MAX as int
    } else {
        x
    }
}

/// The run of digits and dots following the time marker found at `idx`.
pub open spec fn time_part(s: Seq<char>, idx: int) -> Seq<char> {
    s.subrange(idx + 5, scan_time_end(s, idx + 5))
}

/// The round-trip sample a probe output line carries, in microseconds, if
/// any: the decimal milliseconds after the first time marker, or the fixed
/// minimum for a reply under one millisecond. A line without a marker
/// carries no sample.
pub open spec fn sample_of_line(s: Seq<char>) -> Option<int> {
    let found = find_from(s, time_eq_marker(), 0);
    if found is Some && valid_decimal(time_part(s, found->0)) {
        Some(sat_usize(decimal_ms_to_us(time_part(s, found->0))))
    } else if contains_pat(s, sub_ms_marker_a()) || contains_pat(s, sub_ms_marker_b()) {
        Some(1000)
    } else {
        None
    }
}

proof fn lemma_scan_time_end(s: Seq<char>, i: int)
    requires
        0 <= i <= s.len(),
    ensures
        i <= scan_time_end(s, i) <= s.len(),
        forall|k: int| i <= k < scan_time_end(s, i) ==> digit_or_dot(s[k]),
    decreases s.len() - i,
{
    if i < s.len() && digit_or_dot(s[i]) {
        lemma_scan_time_end(s, i + 1);
    }
}

fn scan_time_end_x(s: &Vec<char>, i: usize) -> (r: usize)
    requires
        i <= s@.len(),
    ensures
        r as int == scan_time_end(s@, i as int),
        i <= r <= s@.len(),
    decreases s@.len() - i,
{
    if i < s.len() {
        let c = s[i];
        let cu = c as u32;
        if (48 <= cu && cu <= 57) || c == '.' {
            scan_time_end_x(s, i + 1)
        } else {
            i
        }
    } else {
        i
    }
}

proof fn lemma_match_single(s: Seq<char>, c: char, k: int)
    requires
        0 <= k < s.len(),
    ensures
        match_at(s, seq![c], k) == (s[k] == c),
{
    if s[k] == c {
        assert(s.subrange(k, k + 1) =~= seq![c]);
    } else {
        assert(s.subrange(k, k + 1)[0] == s[k]);
    }
}

fn num_val_cap(s: &Vec<char>, j: usize) -> (r: u128)
    requires
        j <= s@.len(),
        forall|k: int| 0 <= k < j ==> is_digit(s@[k]),
    ensures
        num_val(s@, 0, j as int) <= usize::MAX ==> r == num_val(s@, 0, j as int),
        num_val(s@, 0, j as int) > usize::MAX ==> r > usize::MAX,
    decreases j,
{
    proof {
        lemma_num_val_nonneg(s@, 0, j as int - 1);
    }
    if j == 0 {
        0
    } else {
        proof {
            assert(is_digit(s@[j as int - 1]));
        }
        let prev = num_val_cap(s, j - 1);
        if prev > usize::MAX as u128 {
            proof {
                assert(num_val(s@, 0, j as int - 1) * 10 >= num_val(s@, 0, j as int - 1));
            }
            (usize::MAX as u128) + 1
        } else {
            let d = (s[j - 1] as u32 - 48) as u128;
            prev * 10 + d
        }
    }
}

fn no_second_dot(part: &Vec<char>, d: usize) -> (r: bool)
    requires
        d <= part@.len(),
    ensures
        r == (forall|k: int| d < k < part@.len() ==> part@[k] != '.'),
{
    let n = part.len();
    if d >= n {
        return true;
    }
    let mut k: usize = d + 1;
    while k < n
        invariant
            d + 1 <= k <= n || (k == d + 1 && n <= d),
            n == part@.len(),
            forall|j: int| d < j < k ==> part@[j] != '.',
        decreases n - k,
    {
        if part[k] == '.' {
            return false;
        }
        k = k + 1;
    }
    true
}

fn decimal_value(part: &Vec<char>) -> (r: Option<usize>)
    requires
        forall|k: int| 0 <= k < part@.len() ==> digit_or_dot(part@[k]),
    ensures
        match r {
            Some(v) => valid_decimal(part@) && v as int == sat_usize(decimal_ms_to_us(part@)),
            None => !valid_decimal(part@),
        },
{
    let n = part.len();
    if n == 0 {
        return None;
    }
    let dotpat: Vec<char> = vec!['.'];
    proof {
        assert(dotpat@ =~= seq!['.']);
    }
    let dopt = find_from_x(part, &dotpat, 0);
    let d: usize = match dopt {
        Some(p) => p,
        None => n,
    };
    proof {
        lemma_find_from_first(part@, seq!['.'], 0);
        assert(dot_of(part@) == d as int);
        assert forall|k: int| 0 <= k < d implies is_digit(part@[k]) by {
            lemma_match_single(part@, '.', k);
            assert(!match_at(part@, seq!['.'], k));
        }
    }
    if !no_second_dot(part, d) {
        return None;
    }
    if d < n && n < 2 {
        return None;
    }
    assert(valid_decimal(part@));
    let iv = num_val_cap(part, d);
    let f_start: usize = if d < n {
        d + 1
    } else {
        d
    };
    let ghost f = if (d as int) < part@.len() {
        part@.subrange(d + 1, part@.len() as int)
    } else {
        Seq::<char>::empty()
    };
    proof {
        assert forall|k: int| f_start <= k < n implies is_digit(part@[k]) by {
            assert(part@[k] != '.');
        }
        assert(f.len() == n - f_start);
        assert(forall|j: int| 0 <= j < f.len() ==> f[j] == part@[f_start + j]);
    }
    let flen = n - f_start;
    let mut frac: u64 = 0;
    if flen >= 1 {
        proof {
            assert(is_digit(part@[f_start as int]));
        }
        frac = frac + (part[f_start] as u32 - 48) as u64 * 100;
    }
    if flen >= 2 {
        proof {
            assert(is_digit(part@[f_start as int + 1]));
        }
        frac = frac + (part[f_start + 1] as u32 - 48) as u64 * 10;
    }
    if flen >= 3 {
        proof {
            assert(is_digit(part@[f_start as int + 2]));
        }
        frac = frac + (part[f_start + 2] as u32 - 48) as u64;
    }
    proof {
        assert(frac as int == frac_us(f));
        lemma_num_val_nonneg(part@, 0, d as int);
    }
    if iv > usize::MAX as u128 {
        proof {
            assert(num_val(part@, 0, d as int) * 1000 >= num_val(part@, 0, d as int));
        }
        Some(usize::MAX)
    } else {
        let total: u128 = iv * 1000 + frac as u128;
        if total > usize::MAX as u128 {
            Some(usize::MAX)
        } else {
            Some(total as usize)
        }
    }
}

/// The round-trip sample a probe output line carries, in microseconds, if
/// any; see [`sample_of_line`]. Recognizes `time=` followed by decimal
/// milliseconds in the dialects that space or spell the marker differently,
/// and the under-one-millisecond markers; any other line carries no sample.
pub fn parse_ping_output(line: &str) -> (r: Option<usize>)
    ensures
        match r {
            Some(v) => sample_of_line(line@) == Some(v as int),
            None => sample_of_line(line@) is None,
        },
{
    let chars = str_to_chars(line);
    // Learning the vector's length keeps the index arithmetic below in
    // bounds for the verifier.
    let _n = chars.len();
    let marker = str_to_chars("time=");
    proof {
        reveal_strlit("time=");
        assert(marker@ =~= time_eq_marker());
    }
    let found = find_from_x(&chars, &marker, 0);
    match found {
        Some(idx) => {
            let e = scan_time_end_x(&chars, idx + 5);
            proof {
                lemma_scan_time_end(chars@, idx + 5);
            }
            let part = subvec_chars(&chars, idx + 5, e);
            proof {
                assert(part@ == time_part(line@, idx as int));
                assert forall|k: int| 0 <= k < part@.len() implies digit_or_dot(part@[k]) by {
                    assert(part@[k] == chars@[idx + 5 + k]);
                }
            }
            match decimal_value(&part) {
                Some(v) => {
                    return Some(v);
                },
                None => {},
            }
        },
        None => {},
    }
    let ma = str_to_chars("time<1ms");
    let mb = str_to_chars("time<1 ms");
    proof {
        reveal_strlit("time<1ms");
        reveal_strlit("time<1 ms");
        assert(ma@ =~= sub_ms_marker_a());
        assert(mb@ =~= sub_ms_marker_b());
    }
    let has_a = match find_from_x(&chars, &ma, 0) {
        Some(_) => true,
        None => false,
    };
    let has_b = match find_from_x(&chars, &mb, 0) {
        Some(_) => true,
        None => false,
    };
    if has_a || has_b {
        Some(1000)
    } else {
        None
    }
}

// ---------------------------------------------------------------------------
// Metric aggregation
// ---------------------------------------------------------------------------

/// How many observations were received.
pub open spec fn received_count_of(s: Seq<PingResult>) -> int
    decreases s.len(),
{
    if s.len() == 0 {
        0
    } else {
        received_count_of(s.drop_last()) + if s.last().received {
            1int
        } else {
            0int
        }
    }
}

/// The round-trip samples present among the observations, in order.
pub open spec fn samples_of(s: Seq<PingResult>) -> Seq<u64>
    decreases s.len(),
{
    if s.len() == 0 {
        Seq::empty()
    } else {
        samples_of(s.drop_last()) + match s.last().rtt_us {
            Some(v) => seq![v],
            None => Seq::empty(),
        }
    }
}

/// The sum of a sample sequence.
pub open spec fn sum_of(s: Seq<u64>) -> int
    decreases s.len(),
{
    if s.len() == 0 {
        0
    } else {
        sum_of(s.drop_last()) + s.last()
    }
}

/// The least sample (`0` for an empty sequence).
pub open spec fn min_of(s: Seq<u64>) -> int
    decreases s.len(),
{
    if s.len() == 0 {
        0
    } else if s.len() == 1 {
        s[0] as int
    } else {
        let m = min_of(s.drop_last());
        if s.last() < m {
            s.last() as int
        } else {
            m
        }
    }
}

/// The greatest sample (`0` for an empty sequence).
pub open spec fn max_of(s: Seq<u64>) -> int
    decreases s.len(),
{
    if s.len() == 0 {
        0
    } else if s.len() == 1 {
        s[0] as int
    } else {
        let m = max_of(s.drop_last());
        if s.last() > m {
            s.last() as int
        } else {
            m
        }
    }
}

/// Expected samples that never arrived; never negative.
pub open spec fn lost_of(count: int, received: int) -> int {
    if count >= received {
        count - received
    } else {
        0
    }
}

/// The average, least and greatest round-trip time of a run, in that order.
/// A run with no observations, no received observation or no timing sample
/// settles all three to the warning timeout, a conservative sentinel.
pub open spec fn rtt_stats_of(results: Seq<PingResult>, wt_us: int) -> (int, int, int) {
    let samples = samples_of(results);
    if results.len() == 0 || received_count_of(results) == 0 || samples.len() == 0 {
        (wt_us, wt_us, wt_us)
    } else {
        (sum_of(samples) / (samples.len() as int), min_of(samples), max_of(samples))
    }
}

/// The metrics map a run settles to: the seven integer metrics the rule
/// expressions are evaluated against.
pub open spec fn metrics_of(results: Seq<PingResult>, count: int, wt_us: int) -> Map<
    Seq<char>,
    ValueV,
> {
    let received = received_count_of(results);
    let stats = rtt_stats_of(results, wt_us);
    Map::empty().insert("count"@, ValueV::Int(sat_i64(count))).insert(
        "lost"@,
        ValueV::Int(sat_i64(lost_of(count, received))),
    ).insert("received"@, ValueV::Int(sat_i64(received))).insert(
        "rtt_avg"@,
        ValueV::Int(sat_i64(stats.0)),
    ).insert("rtt_min"@, ValueV::Int(sat_i64(stats.1))).insert(
        "rtt_max"@,
        ValueV::Int(sat_i64(stats.2)),
    ).insert("warning_timeout"@, ValueV::Int(sat_i64(wt_us)))
}

// ---------------------------------------------------------------------------
// Status report rendering
// ---------------------------------------------------------------------------

/// One metadata line of a status report.
pub open spec fn meta_line(key: Seq<char>, v: int) -> Seq<char> {
    "status.metadata."@ + key + "=\""@ + dec_int(v) + "\""@
}

/// The one status line of a status report.
pub open spec fn status_line(color: Seq<char>) -> Seq<char> {
    "status.status=\""@ + color + "\""@
}

/// The error metadata line of a synthetic failure report.
pub open spec fn error_line(msg: Seq<char>) -> Seq<char> {
    "status.metadata.error=\""@ + msg + "\""@
}

/// The color the five rule outcomes settle to, in strict priority order:
/// red over orange over yellow over blue over green, and blank when no rule
/// is true.
pub open spec fn color_of(red: bool, orange: bool, yellow: bool, blue: bool, green: bool) -> Seq<
    char,
> {
    if red {
        "red"@
    } else if orange {
        "orange"@
    } else if yellow {
        "yellow"@
    } else if blue {
        "blue"@
    } else if green {
        "green"@
    } else {
        "blank"@
    }
}

/// The seven metadata lines of a run's report, in their fixed order.
pub open spec fn metadata_lines(results: Seq<PingResult>, count: int, wt_us: int) -> Seq<
    Seq<char>,
> {
    let received = received_count_of(results);
    let stats = rtt_stats_of(results, wt_us);
    seq![
        meta_line("count"@, sat_i64(count)),
        meta_line("lost"@, sat_i64(lost_of(count, received))),
        meta_line("received"@, sat_i64(received)),
        meta_line("rtt_avg"@, sat_i64(stats.0)),
        meta_line("rtt_max"@, sat_i64(stats.2)),
        meta_line("rtt_min"@, sat_i64(stats.1)),
        meta_line("warning_timeout"@, sat_i64(wt_us)),
    ]
}

/// The whole report of a run: the seven metadata lines, then exactly one
/// status line whose color the five rules pick by priority.
pub open spec fn report_of(
    results: Seq<PingResult>,
    count: int,
    wt_us: int,
    red: Seq<char>,
    green: Seq<char>,
    blue: Seq<char>,
    orange: Seq<char>,
    yellow: Seq<char>,
) -> Seq<Seq<char>> {
    let m = metrics_of(results, count, wt_us);
    metadata_lines(results, count, wt_us) + seq![
        status_line(
            color_of(
                calc_bool_v(red, m),
                calc_bool_v(orange, m),
                calc_bool_v(yellow, m),
                calc_bool_v(blue, m),
                calc_bool_v(green, m),
            ),
        ),
    ]
}

/// The character sequences of a sequence of strings.
pub open spec fn strs_v(s: Seq<String>) -> Seq<Seq<char>> {
    Seq::new(s.len(), |i: int| s[i]@)
}

fn sat_to_i64(x: u64) -> (r: i64)
    ensures
        r as int == sat_i64(x as int),
{
    if x > i64::MAX as u64 {
        i64::MAX
    } else {
        x as i64
    }
}

fn meta_line_x(key: &str, v: i64) -> (r: String)
    ensures
        r@ == meta_line(key@, v as int),
{
    let mut s = String::from_str("status.metadata.");
    s.append(key);
    s.append("=\"");
    let num = i64_to_string(v);
    s.append(num.as_str());
    s.append("\"");
    proof {
        assert(s@ =~= meta_line(key@, v as int));
    }
    s
}

fn status_line_x(color: &str) -> (r: String)
    ensures
        r@ == status_line(color@),
{
    let mut s = String::from_str("status.status=\"");
    s.append(color);
    s.append("\"");
    proof {
        assert(s@ =~= status_line(color@));
    }
    s
}

/// The synthetic report for a probe that could not be launched: an
/// immediate red status carrying the error in a metadata field.
pub fn launch_failure_report(error: &str) -> (r: Vec<String>)
    ensures
        strs_v(r@) == seq![status_line("red"@), error_line(error@)],
{
    let mut out: Vec<String> = Vec::new();
    out.push(status_line_x("red"));
    let mut e = String::from_str("status.metadata.error=\"");
    e.append(error);
    e.append("\"");
    proof {
        assert(e@ =~= error_line(error@));
    }
    out.push(e);
    proof {
        assert(strs_v(out@) =~= seq![status_line("red"@), error_line(error@)]);
    }
    out
}

// ---------------------------------------------------------------------------
// Configuration model
// ---------------------------------------------------------------------------

/// The warning timeout a monitor defaults to, in microseconds.
pub fn default_warning_timeout() -> (r: u64)
    ensures
        r == 1000000u64,
{
    1000000
}

/// The expected sample count a monitor defaults to.
pub fn default_count() -> (r: u32)
    ensures
        r == 1u32,
{
    1
}

/// The default red rule: every expected sample was lost.
pub fn default_red() -> (r: String)
    ensures
        r@ == "lost == count"@,
{
    String::from_str("lost == count")
}

/// The default green rule: nothing was lost.
pub fn default_green() -> (r: String)
    ensures
        r@ == "lost == 0"@,
{
    String::from_str("lost == 0")
}

/// The default blue rule: never.
pub fn default_blue() -> (r: String)
    ensures
        r@ == "false"@,
{
    String::from_str("false")
}

/// The default orange rule: something was lost, or nothing was lost but the
/// slowest reply overran the warning timeout.
pub fn default_orange() -> (r: String)
    ensures
        r@ == "lost > 0 or (lost == 0 and rtt_max > warning_timeout)"@,
{
    String::from_str("lost > 0 or (lost == 0 and rtt_max > warning_timeout)")
}

/// The default yellow rule: never.
pub fn default_yellow() -> (r: String)
    ensures
        r@ == "false"@,
{
    String::from_str("false")
}

/// The shareable per-monitor processor factory: the static parameters every
/// run of this monitor starts from.
#[derive(Debug)]
pub struct SurgePingMonitorMessageProcessor {
    pub host: String,
    pub count: u32,
    /// Probe timeout, in microseconds.
    pub timeout: u64,
    /// Warning timeout, in microseconds.
    pub warning_timeout: u64,
    pub red: String,
    pub green: String,
    pub blue: String,
    pub orange: String,
    pub yellow: String,
}

/// The per-run processor instance: the factory's parameters plus the run's
/// own observation sequence, appended to while messages arrive and read
/// once at finalization.
#[derive(Debug)]
pub struct SurgePingMonitorMessageProcessorInstance {
    pub host: String,
    pub count: u32,
    /// Probe timeout, in microseconds.
    pub timeout: u64,
    /// Warning timeout, in microseconds.
    pub warning_timeout: u64,
    pub red: String,
    pub green: String,
    pub blue: String,
    pub orange: String,
    pub yellow: String,
    pub ping_results: Vec<PingResult>,
}

/// The execution parameters of one probe run, derived from a monitor's
/// configuration and shared with the scheduler.
#[derive(Debug)]
pub struct MonitorDirTestConfig {
    /// Run interval, in microseconds.
    pub interval: u64,
    /// Probe timeout, in microseconds.
    pub timeout: u64,
    pub command: String,
    pub args: Vec<String>,
    pub processor: Option<SurgePingMonitorMessageProcessor>,
}

/// Static configuration of one ping monitor. All durations are in
/// microseconds.
#[derive(Debug)]
pub struct PingMonitorConfig {
    pub host: String,
    /// Run interval, in microseconds.
    pub interval: u64,
    /// Probe timeout, in microseconds.
    pub timeout: u64,
    /// Warning timeout, in microseconds.
    pub warning_timeout: u64,
    pub count: u32,
    pub red: String,
    pub green: String,
    pub blue: String,
    pub orange: String,
    pub yellow: String,
    pub test: Option<MonitorDirTestConfig>,
}

impl PingMonitorConfig {
    /// The execution parameters for one run of this monitor: a stand-in
    /// command that echoes the host, and a processor factory carrying this
    /// monitor's parameters and rules.
    pub fn test(&self) -> (r: MonitorDirTestConfig)
        ensures
            r.interval == self.interval,
            r.timeout == self.timeout,
            r.command@ == "echo"@,
            r.args@.len() == 1,
            r.args@[0]@ == self.host@,
            r.processor is Some,
            r.processor->0.host@ == self.host@,
            r.processor->0.count == self.count,
            r.processor->0.timeout == self.timeout,
            r.processor->0.warning_timeout == self.warning_timeout,
            r.processor->0.red@ == self.red@,
            r.processor->0.green@ == self.green@,
            r.processor->0.blue@ == self.blue@,
            r.processor->0.orange@ == self.orange@,
            r.processor->0.yellow@ == self.yellow@,
    {
        let mut args: Vec<String> = Vec::new();
        args.push(self.host.clone());
        MonitorDirTestConfig {
            interval: self.interval,
            timeout: self.timeout,
            command: String::from_str("echo"),
            args,
            processor: Some(
                SurgePingMonitorMessageProcessor {
                    host: self.host.clone(),
                    count: self.count,
                    timeout: self.timeout,
                    warning_timeout: self.warning_timeout,
                    red: self.red.clone(),
                    green: self.green.clone(),
                    blue: self.blue.clone(),
                    orange: self.orange.clone(),
                    yellow: self.yellow.clone(),
                },
            ),
        }
    }
}

impl SurgePingMonitorMessageProcessor {
    /// A fresh instance for one run, with an empty observation sequence.
    /// Instances of overlapping runs never share observation state.
    pub fn new(&self) -> (r: SurgePingMonitorMessageProcessorInstance)
        ensures
            r.host@ == self.host@,
            r.count == self.count,
            r.timeout == self.timeout,
            r.warning_timeout == self.warning_timeout,
            r.red@ == self.red@,
            r.green@ == self.green@,
            r.blue@ == self.blue@,
            r.orange@ == self.orange@,
            r.yellow@ == self.yellow@,
            r.ping_results@ == Seq::<PingResult>::empty(),
    {
        SurgePingMonitorMessageProcessorInstance {
            host: self.host.clone(),
            count: self.count,
            timeout: self.timeout,
            warning_timeout: self.warning_timeout,
            red: self.red.clone(),
            green: self.green.clone(),
            blue: self.blue.clone(),
            orange: self.orange.clone(),
            yellow: self.yellow.clone(),
            ping_results: Vec::new(),
        }
    }
}

impl SurgePingMonitorMessageProcessorInstance {
    /// Ingest one probe output line: a line carrying a sample appends one
    /// received observation, any other line is ignored without error.
    /// Nothing is reported until finalization.
    pub fn process_message(&mut self, input: &str) -> (r: Vec<String>)
        ensures
            final(self).ping_results@ == old(self).ping_results@ + match sample_of_line(input@) {
                Some(v) => seq![(PingResult { rtt_us: Some(v as u64), received: true })],
                None => Seq::<PingResult>::empty(),
            },
            final(self).host == old(self).host,
            final(self).count == old(self).count,
            final(self).timeout == old(self).timeout,
            final(self).warning_timeout == old(self).warning_timeout,
            final(self).red == old(self).red,
            final(self).green == old(self).green,
            final(self).blue == old(self).blue,
            final(self).orange == old(self).orange,
            final(self).yellow == old(self).yellow,
            r@ == Seq::<String>::empty(),
    {
        match parse_ping_output(input) {
            Some(v) => {
                let ghost before = self.ping_results@;
                self.ping_results.push(PingResult { rtt_us: Some(v as u64), received: true });
                proof {
                    assert(self.ping_results@ =~= before + seq![
                        (PingResult { rtt_us: Some(v as u64), received: true }),
                    ]);
                }
            },
            None => {
                proof {
                    assert(self.ping_results@ =~= self.ping_results@ + Seq::<
                        PingResult,
                    >::empty());
                }
            },
        }
        Vec::new()
    }

    /// Aggregate the run's observations into the seven metrics, evaluate
    /// all five rules against them, and render the report: the metadata
    /// lines in their fixed order, then exactly one status line.
    pub fn finalize(&self) -> (r: Vec<String>)
        ensures
            strs_v(r@) == report_of(
                self.ping_results@,
                self.count as int,
                self.warning_timeout as int,
                self.red@,
                self.green@,
                self.blue@,
                self.orange@,
                self.yellow@,
            ),
    {
        let results = &self.ping_results;
        let n = results.len();

        let mut received: usize = 0;
        let mut i: usize = 0;
        while i < n
            invariant
                i <= n,
                n == results@.len(),
                received <= i,
                received as int == received_count_of(results@.take(i as int)),
            decreases n - i,
        {
            proof {
                assert(results@.take(i + 1).drop_last() =~= results@.take(i as int));
                assert(results@.take(i + 1).last() == results@[i as int]);
            }
            if results[i].received {
                received = received + 1;
            }
            i = i + 1;
        }
        proof {
            assert(results@.take(n as int) =~= results@);
        }

        let mut samples: Vec<u64> = Vec::new();
        let mut i: usize = 0;
        while i < n
            invariant
                i <= n,
                n == results@.len(),
                samples@ == samples_of(results@.take(i as int)),
            decreases n - i,
        {
            proof {
                assert(results@.take(i + 1).drop_last() =~= results@.take(i as int));
                assert(results@.take(i + 1).last() == results@[i as int]);
            }
            match results[i].rtt_us {
                Some(v) => {
                    samples.push(v);
                },
                None => {},
            }
            i = i + 1;
        }
        proof {
            assert(results@.take(n as int) =~= results@);
        }

        let wt = self.warning_timeout;
        let ghost stats = rtt_stats_of(results@, wt as int);
        let m = samples.len();
        let (avg, mn, mx): (u64, u64, u64) = if n == 0 || received == 0 || m == 0 {
            (wt, wt, wt)
        } else {
            let mut sum: u128 = 0;
            let mut k: usize = 0;
            while k < m
                invariant
                    k <= m,
                    m == samples@.len(),
                    sum as int == sum_of(samples@.take(k as int)),
                    sum as int <= (k as int) * 0xffff_ffff_ffff_ffffint,
                decreases m - k,
            {
                proof {
                    assert(samples@.take(k + 1).drop_last() =~= samples@.take(k as int));
                    assert(samples@.take(k + 1).last() == samples@[k as int]);
                    assert((k + 1) * 0xffff_ffff_ffff_ffffint <= 0xffff_ffff_ffff_ffffint
                        * 0xffff_ffff_ffff_ffffint) by (nonlinear_arith)
                        requires
                            0 <= k < 0xffff_ffff_ffff_ffffint,
                    ;
                    assert((k as int) * 0xffff_ffff_ffff_ffffint + 0xffff_ffff_ffff_ffffint == (k
                        + 1) * 0xffff_ffff_ffff_ffffint) by (nonlinear_arith);
                }
                sum = sum + samples[k] as u128;
                k = k + 1;
            }
            proof {
                assert(samples@.take(m as int) =~= samples@);
            }
            let q: u128 = sum / (m as u128);
            proof {
                vstd::arithmetic::div_mod::lemma_fundamental_div_mod(sum as int, m as int);
                assert((m as int) * (q as int) <= (m as int) * 0xffff_ffff_ffff_ffffint);
                assert(q as int <= 0xffff_ffff_ffff_ffffint) by (nonlinear_arith)
                    requires
                        (m as int) * (q as int) <= (m as int) * 0xffff_ffff_ffff_ffffint,
                        m >= 1,
                ;
            }
            let avg = q as u64;

            let mut mn: u64 = samples[0];
            let mut mx: u64 = samples[0];
            let mut k: usize = 1;
            while k < m
                invariant
                    1 <= k <= m,
                    m == samples@.len(),
                    mn as int == min_of(samples@.take(k as int)),
                    mx as int == max_of(samples@.take(k as int)),
                decreases m - k,
            {
                proof {
                    assert(samples@.take(k + 1).drop_last() =~= samples@.take(k as int));
                    assert(samples@.take(k + 1).last() == samples@[k as int]);
                    assert(samples@.take(k + 1).len() == k + 1);
                }
                let v = samples[k];
                if v < mn {
                    mn = v;
                }
                if v > mx {
                    mx = v;
                }
                k = k + 1;
            }
            proof {
                assert(samples@.take(m as int) =~= samples@);
                assert(samples@.take(1).len() == 1 && samples@.take(1)[0] == samples@[0]);
            }
            (avg, mn, mx)
        };
        proof {
            assert(stats == (avg as int, mn as int, mx as int));
        }

        let cnt64 = self.count as u64;
        let rec64 = received as u64;
        let lost64: u64 = if cnt64 >= rec64 {
            cnt64 - rec64
        } else {
            0
        };
        proof {
            assert(lost64 as int == lost_of(self.count as int, received_count_of(results@)));
        }

        let mut metrics = MetricsMap::new();
        metrics.insert(String::from_str("count"), Value::Int(sat_to_i64(cnt64)));
        metrics.insert(String::from_str("lost"), Value::Int(sat_to_i64(lost64)));
        metrics.insert(String::from_str("received"), Value::Int(sat_to_i64(rec64)));
        metrics.insert(String::from_str("rtt_avg"), Value::Int(sat_to_i64(avg)));
        metrics.insert(String::from_str("rtt_min"), Value::Int(sat_to_i64(mn)));
        metrics.insert(String::from_str("rtt_max"), Value::Int(sat_to_i64(mx)));
        metrics.insert(String::from_str("warning_timeout"), Value::Int(sat_to_i64(wt)));
        proof {
            assert(metrics@ == metrics_of(results@, self.count as int, wt as int));
        }

        // Every rule is evaluated, even after a winner is known, so that
        // each evaluation can be reported to the operator.
        let red = calculate_bool(self.red.as_str(), &metrics);
        let green = calculate_bool(self.green.as_str(), &metrics);
        let blue = calculate_bool(self.blue.as_str(), &metrics);
        let orange = calculate_bool(self.orange.as_str(), &metrics);
        let yellow = calculate_bool(self.yellow.as_str(), &metrics);

        let mut out: Vec<String> = Vec::new();
        out.push(meta_line_x("count", sat_to_i64(cnt64)));
        out.push(meta_line_x("lost", sat_to_i64(lost64)));
        out.push(meta_line_x("received", sat_to_i64(rec64)));
        out.push(meta_line_x("rtt_avg", sat_to_i64(avg)));
        out.push(meta_line_x("rtt_max", sat_to_i64(mx)));
        out.push(meta_line_x("rtt_min", sat_to_i64(mn)));
        out.push(meta_line_x("warning_timeout", sat_to_i64(wt)));
        let color: &str = if red {
            "red"
        } else if orange {
            "orange"
        } else if yellow {
            "yellow"
        } else if blue {
            "blue"
        } else if green {
            "green"
        } else {
            "blank"
        };
        out.push(status_line_x(color));
        proof {
            assert(color@ == color_of(red, orange, yellow, blue, green));
            assert(strs_v(out@) =~= report_of(
                self.ping_results@,
                self.count as int,
                self.warning_timeout as int,
                self.red@,
                self.green@,
                self.blue@,
                self.orange@,
                self.yellow@,
            ));
        }
        out
    }
}

} // verus!
