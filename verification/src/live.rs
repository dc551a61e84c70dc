//! Decisions and text behind the live frame stream: which frame source
//! runs, how fast the fallback animation ticks, the configuration handed to
//! `cava`, and how a line of `cava` output becomes a frame of bar levels.
use crate::text::{
    decimal, decimal_text, decimal_value, is_digit, lemma_decimal_reads_back, split_on,
    split_trimmed, trim, trim_text, trimmed_nonempty,
};
use std::time::{Duration, SystemTime, SystemTimeError, UNIX_EPOCH};
use vstd::prelude::*;
use vstd::string::StringExecFns;

verus! {

/// Where the frames of a live stream come from.
#[derive(Debug, Clone, Copy, PartialEq, Eq, Structural)]
pub enum SourceKind {
    Cava,
    Dummy,
}

/// The backend that the visualizer configuration asks for.
#[derive(Debug, Clone, Copy, PartialEq, Eq, Structural)]
pub enum VisualizerBackend {
    Auto,
    Cava,
    Dummy,
}

/// The part of the visualizer configuration that starting a stream reads.
#[derive(Debug, Clone, Copy, PartialEq, Eq, Structural)]
pub struct VisualizerConfig {
    pub backend: VisualizerBackend,
    pub bars: usize,
    pub framerate: u32,
}

/// How a stream is started: its bar count and frame rate, both at least
/// one, and whether `cava` is tried before the fallback animation.
#[derive(Debug, Clone, Copy, PartialEq, Eq, Structural)]
pub struct StreamPlan {
    pub bar_count: usize,
    pub framerate: u32,
    pub try_cava: bool,
}

/// The plan for starting a stream with `config`: bar count and frame rate
/// raised to one where they are zero, and `cava` tried unless the dummy
/// backend is asked for.
pub open spec fn stream_plan(config: VisualizerConfig) -> StreamPlan {
    StreamPlan {
        bar_count: if config.bars == 0 { 1 } else { config.bars },
        framerate: if config.framerate == 0 { 1 } else { config.framerate },
        try_cava: config.backend != VisualizerBackend::Dummy,
    }
}

/// The source a stream ends up with: `cava` when it was tried and started,
/// the fallback animation otherwise.
pub open spec fn source_after(plan: StreamPlan, cava_started: bool) -> SourceKind {
    if plan.try_cava && cava_started {
        SourceKind::Cava
    } else {
        SourceKind::Dummy
    }
}

/// The plan for starting a stream with `config`.
pub fn plan_stream(config: &VisualizerConfig) -> (plan: StreamPlan)
    ensures
        plan == stream_plan(*config),
        config.bars > 0 ==> plan.bar_count == config.bars,
        config.bars == 0 ==> plan.bar_count == 1,
        config.framerate > 0 ==> plan.framerate == config.framerate,
        config.framerate == 0 ==> plan.framerate == 1,
        plan.try_cava <==> config.backend != VisualizerBackend::Dummy,
{
    let bar_count = if config.bars == 0 { 1 } else { config.bars };
    let framerate = if config.framerate == 0 { 1 } else { config.framerate };
    let try_cava = match config.backend {
        VisualizerBackend::Dummy => false,
        VisualizerBackend::Auto | VisualizerBackend::Cava => true,
    };
    StreamPlan { bar_count, framerate, try_cava }
}

/// The source a stream started with `plan` ends up with, given whether
/// `cava` could be started.
pub fn settled_source(plan: &StreamPlan, cava_started: bool) -> (kind: SourceKind)
    ensures
        kind == source_after(*plan, cava_started),
        kind == SourceKind::Cava <==> plan.try_cava && cava_started,
{
    if plan.try_cava && cava_started {
        SourceKind::Cava
    } else {
        SourceKind::Dummy
    }
}

/// The `auto` and `cava` backends try `cava` first and fall back to the
/// animation when it cannot be started; the dummy backend always runs the
/// animation. Either way the stream has at least one bar and a frame rate
/// of at least one, and a positive bar count or frame rate of the
/// configuration is kept as it is.
pub proof fn lemma_source_selection(config: VisualizerConfig, cava_started: bool)
    ensures
        config.backend == VisualizerBackend::Dummy ==> source_after(stream_plan(config), cava_started)
            == SourceKind::Dummy,
        config.backend != VisualizerBackend::Dummy ==> source_after(stream_plan(config), cava_started)
            == if cava_started { SourceKind::Cava } else { SourceKind::Dummy },
        stream_plan(config).bar_count >= 1,
        stream_plan(config).framerate >= 1,
        config.bars > 0 ==> stream_plan(config).bar_count == config.bars,
        config.framerate > 0 ==> stream_plan(config).framerate == config.framerate,
{
}

/// Milliseconds between two frames of the fallback animation at
/// `framerate` frames per second: `1000 / framerate`, and at least one.
pub fn frame_delay_millis(framerate: u32) -> (delay: u64)
    requires
        framerate > 0,
    ensures
        delay == if 1000int / (framerate as int) == 0 { 1int } else { 1000int / (framerate as int) },
{
    let d: u64 = 1000u64 / (framerate as u64);
    if d == 0 {
        1
    } else {
        d
    }
}

/// The configuration file that makes `cava` print `bars` levels per frame,
/// `framerate` times a second, as ASCII numbers from 0 to 1000 separated by
/// `;`, one frame per line.
pub open spec fn cava_config(bars: nat, framerate: nat) -> Seq<char> {
    "[general]\nbars = "@ + decimal(bars) + "\nframerate = "@ + decimal(framerate)
        + "\n\n[input]\nmethod = pulse\nsource = auto\n\n[output]\nmethod = raw\nraw_target = /dev/stdout\ndata_format = ascii\nascii_max_range = 1000\nbar_delimiter = 59\nframe_delimiter = 10\n"@
}

/// The fixed part of the `cava` configuration after the frame rate.
pub open spec fn cava_config_rest() -> Seq<char> {
    "\n\n[input]\nmethod = pulse\nsource = auto\n\n[output]\nmethod = raw\nraw_target = /dev/stdout\ndata_format = ascii\nascii_max_range = 1000\nbar_delimiter = 59\nframe_delimiter = 10\n"@
}

/// `s` is a decimal number that reads back as `n`: non-empty, digits
/// only, no leading zero but for zero itself.
pub open spec fn reads_as(s: Seq<char>, n: nat) -> bool {
    &&& s.len() > 0
    &&& forall|i: int| 0 <= i < s.len() ==> is_digit(#[trigger] s[i])
    &&& (s[0] == '0' ==> s.len() == 1)
    &&& decimal_value(s) == n
}

/// The `cava` configuration asks for exactly the bars and frame rate it is
/// made for: its `bars = ` line holds digits that read back as `bars` and
/// its `framerate = ` line digits that read back as `framerate`, around the
/// fixed text.
pub proof fn lemma_cava_config_reads_back(bars: nat, framerate: nat)
    ensures
        exists|b: Seq<char>, f: Seq<char>|
            {
                &&& reads_as(b, bars)
                &&& reads_as(f, framerate)
                &&& cava_config(bars, framerate) == "[general]\nbars = "@ + b + "\nframerate = "@ + f
                    + cava_config_rest()
            },
{
    lemma_decimal_reads_back(bars);
    lemma_decimal_reads_back(framerate);
    lemma_decimal_single_zero(bars);
    lemma_decimal_single_zero(framerate);
    let b = decimal(bars);
    let f = decimal(framerate);
    assert(reads_as(b, bars));
    assert(reads_as(f, framerate));
    assert(cava_config(bars, framerate) == "[general]\nbars = "@ + b + "\nframerate = "@ + f
        + cava_config_rest());
}

/// Only zero's notation starts with `0`, and it is the single digit.
proof fn lemma_decimal_single_zero(n: nat)
    ensures
        decimal(n)[0] == '0' ==> decimal(n).len() == 1,
{
    lemma_decimal_reads_back(n);
    if decimal(n)[0] == '0' {
        assert(n == 0);
    }
}

/// The text of the `cava` configuration file for `bar_count` bars at
/// `framerate` frames per second.
pub fn cava_config_text(bar_count: usize, framerate: u32) -> (r: String)
    ensures
        r@ == cava_config(bar_count as nat, framerate as nat),
{
    let mut r = String::from_str("[general]\nbars = ");
    let bars = decimal_text(bar_count as u64);
    r.append(bars.as_str());
    r.append("\nframerate = ");
    let rate = decimal_text(framerate as u64);
    r.append(rate.as_str());
    r.append(
        "\n\n[input]\nmethod = pulse\nsource = auto\n\n[output]\nmethod = raw\nraw_target = /dev/stdout\ndata_format = ascii\nascii_max_range = 1000\nbar_delimiter = 59\nframe_delimiter = 10\n",
    );
    r
}

/// The file name under the temporary directory for the `cava`
/// configuration of process `pid`, written at `timestamp` milliseconds.
pub open spec fn cava_config_name(pid: nat, timestamp: nat) -> Seq<char> {
    "kwybars-cava-"@ + decimal(pid) + "-"@ + decimal(timestamp) + ".conf"@
}

/// The `cava` configuration's file name carries the process id and the
/// time: between `kwybars-cava-`, `-` and `.conf` stand digits that read
/// back as `pid` and as `timestamp`.
pub proof fn lemma_cava_config_name_reads_back(pid: nat, timestamp: nat)
    ensures
        exists|p: Seq<char>, t: Seq<char>|
            {
                &&& reads_as(p, pid)
                &&& reads_as(t, timestamp)
                &&& cava_config_name(pid, timestamp) == "kwybars-cava-"@ + p + "-"@ + t + ".conf"@
            },
{
    lemma_decimal_reads_back(pid);
    lemma_decimal_reads_back(timestamp);
    lemma_decimal_single_zero(pid);
    lemma_decimal_single_zero(timestamp);
    assert(reads_as(decimal(pid), pid));
    assert(reads_as(decimal(timestamp), timestamp));
    assert(cava_config_name(pid, timestamp) == "kwybars-cava-"@ + decimal(pid) + "-"@ + decimal(
        timestamp,
    ) + ".conf"@);
}

/// The file name of the `cava` configuration of process `pid`, written at
/// `timestamp` milliseconds.
pub fn cava_config_file_name(pid: u32, timestamp: u64) -> (r: String)
    ensures
        r@ == cava_config_name(pid as nat, timestamp as nat),
{
    let mut r = String::from_str("kwybars-cava-");
    let p = decimal_text(pid as u64);
    r.append(p.as_str());
    r.append("-");
    let t = decimal_text(timestamp);
    r.append(t.as_str());
    r.append(".conf");
    r
}

/// The level tokens of a line of `cava` output: the line trimmed, split at
/// `;`, each piece trimmed, empty pieces left out.
pub open spec fn cava_tokens(line: Seq<char>) -> Seq<Seq<char>> {
    trimmed_nonempty(split_on(trim(line), ';'))
}

/// `values` brought to `count` entries: cut after `count`, or padded with
/// `fill`.
pub open spec fn fit_to_count<T>(values: Seq<T>, count: nat, fill: T) -> Seq<T> {
    Seq::new(count, |i: int| if i < values.len() { values[i] } else { fill })
}

/// `level`, called on some text that reads `token`, may return `out`.
pub open spec fn level_gives<T, F: Fn(&str) -> Option<T>>(
    level: F,
    token: Seq<char>,
    out: Option<T>,
) -> bool {
    exists|s: &str| s@ == token && call_ensures(level, (s,), out)
}

/// What reading the `cava` output line `line` for `expected` bars may give
/// (`Some` with the bars, or `None`): bars only for a line with tokens,
/// whose levels, as `level` gives them, are cut to `expected` or padded
/// with `silence`; a refusal only for a line without tokens or with a token
/// that `level` refuses.
pub open spec fn cava_line_outcome<T, F: Fn(&str) -> Option<T>>(
    line: Seq<char>,
    expected: nat,
    level: F,
    silence: T,
    r: Option<Seq<T>>,
) -> bool {
    let toks = cava_tokens(line);
    match r {
        Some(bars) => {
            &&& toks.len() > 0
            &&& exists|vals: Seq<T>|
                {
                    &&& vals.len() == toks.len()
                    &&& forall|i: int|
                        0 <= i < toks.len() ==> level_gives(level, #[trigger] toks[i], Some(vals[i]))
                    &&& bars == fit_to_count(vals, expected, silence)
                }
        },
        None => {
            ||| toks.len() == 0
            ||| exists|i: int| 0 <= i < toks.len() && level_gives(level, #[trigger] toks[i], None)
        },
    }
}

/// A line that gives bars gives exactly `expected` of them: bar `i` is the
/// level of token `i` while there are tokens, and `silence` after the last
/// token.
pub proof fn lemma_cava_bars_pointwise<T, F: Fn(&str) -> Option<T>>(
    line: Seq<char>,
    expected: nat,
    level: F,
    silence: T,
    bars: Seq<T>,
)
    requires
        cava_line_outcome(line, expected, level, silence, Some(bars)),
    ensures
        bars.len() == expected,
        cava_tokens(line).len() > 0,
        forall|i: int|
            0 <= i < expected && i < cava_tokens(line).len() ==> level_gives(
                level,
                cava_tokens(line)[i],
                Some(#[trigger] bars[i]),
            ),
        forall|i: int| cava_tokens(line).len() <= i < expected ==> #[trigger] bars[i] == silence,
{
    let toks = cava_tokens(line);
    let vals = choose|vals: Seq<T>|
        {
            &&& vals.len() == toks.len()
            &&& forall|i: int|
                0 <= i < toks.len() ==> level_gives(level, #[trigger] toks[i], Some(vals[i]))
            &&& bars == fit_to_count(vals, expected, silence)
        };
    assert forall|i: int| 0 <= i < expected && i < toks.len() implies level_gives(
        level,
        toks[i],
        Some(#[trigger] bars[i]),
    ) by {
        assert(bars[i] == vals[i]);
    }
}

/// `level` gives one result for each text: two calls on texts that read
/// the same return the same.
pub open spec fn level_is_deterministic<T, F: Fn(&str) -> Option<T>>(level: F) -> bool {
    forall|s1: &str, s2: &str, o1: Option<T>, o2: Option<T>|
        s1@ == s2@ && #[trigger] call_ensures(level, (s1,), o1) && #[trigger] call_ensures(
            level,
            (s2,),
            o2,
        ) ==> o1 == o2
}

/// Fitting to fewer entries gives a prefix of fitting to more.
pub proof fn lemma_fit_prefix<T>(values: Seq<T>, n: nat, m: nat, fill: T)
    requires
        n <= m,
    ensures
        fit_to_count(values, n, fill) == fit_to_count(values, m, fill).take(n as int),
{
    assert(fit_to_count(values, n, fill) =~= fit_to_count(values, m, fill).take(n as int));
}

/// With a level function that gives one result per text, reading a line
/// for fewer bars gives a prefix of reading it for more: both readings
/// refuse the line, or both give bars and the shorter are the first `n` of
/// the longer.
pub proof fn lemma_cava_line_prefix<T, F: Fn(&str) -> Option<T>>(
    line: Seq<char>,
    n: nat,
    m: nat,
    level: F,
    silence: T,
    short: Option<Seq<T>>,
    long: Option<Seq<T>>,
)
    requires
        n <= m,
        level_is_deterministic(level),
        cava_line_outcome(line, n, level, silence, short),
        cava_line_outcome(line, m, level, silence, long),
    ensures
        match (short, long) {
            (Some(a), Some(b)) => a == b.take(n as int),
            (None, None) => true,
            _ => false,
        },
{
    let toks = cava_tokens(line);
    match (short, long) {
        (Some(a), Some(b)) => {
            let va = choose|vals: Seq<T>|
                {
                    &&& vals.len() == toks.len()
                    &&& forall|i: int|
                        0 <= i < toks.len() ==> level_gives(level, #[trigger] toks[i], Some(vals[i]))
                    &&& a == fit_to_count(vals, n, silence)
                };
            let vb = choose|vals: Seq<T>|
                {
                    &&& vals.len() == toks.len()
                    &&& forall|i: int|
                        0 <= i < toks.len() ==> level_gives(level, #[trigger] toks[i], Some(vals[i]))
                    &&& b == fit_to_count(vals, m, silence)
                };
            assert forall|i: int| 0 <= i < toks.len() implies va[i] == vb[i] by {
                assert(level_gives(level, toks[i], Some(va[i])));
                assert(level_gives(level, toks[i], Some(vb[i])));
                let s1 = choose|s: &str| s@ == toks[i] && call_ensures(level, (s,), Some(va[i]));
                let s2 = choose|s: &str| s@ == toks[i] && call_ensures(level, (s,), Some(vb[i]));
                assert(call_ensures(level, (s1,), Some(va[i])));
                assert(call_ensures(level, (s2,), Some(vb[i])));
            }
            assert(va =~= vb);
            lemma_fit_prefix(va, n, m, silence);
        },
        (Some(a), None) => {
            lemma_refusal_excludes_levels(toks, level, silence, n, a);
        },
        (None, Some(b)) => {
            lemma_refusal_excludes_levels(toks, level, silence, m, b);
        },
        (None, None) => {},
    }
}

/// A line that gives bars has no token that a deterministic `level`
/// refuses.
proof fn lemma_refusal_excludes_levels<T, F: Fn(&str) -> Option<T>>(
    toks: Seq<Seq<char>>,
    level: F,
    silence: T,
    count: nat,
    bars: Seq<T>,
)
    requires
        level_is_deterministic(level),
        toks.len() > 0,
        exists|vals: Seq<T>|
            {
                &&& vals.len() == toks.len()
                &&& forall|i: int|
                    0 <= i < toks.len() ==> level_gives(level, #[trigger] toks[i], Some(vals[i]))
                &&& bars == fit_to_count(vals, count, silence)
            },
    ensures
        !exists|i: int| 0 <= i < toks.len() && level_gives(level, #[trigger] toks[i], None),
{
    let vals = choose|vals: Seq<T>|
        {
            &&& vals.len() == toks.len()
            &&& forall|i: int|
                0 <= i < toks.len() ==> level_gives(level, #[trigger] toks[i], Some(vals[i]))
            &&& bars == fit_to_count(vals, count, silence)
        };
    if exists|i: int| 0 <= i < toks.len() && level_gives(level, #[trigger] toks[i], None) {
        let i = choose|i: int| 0 <= i < toks.len() && level_gives(level, #[trigger] toks[i], None);
        assert(level_gives(level, toks[i], Some(vals[i])));
        let s1 = choose|s: &str| s@ == toks[i] && call_ensures(level, (s,), None::<T>);
        let s2 = choose|s: &str| s@ == toks[i] && call_ensures(level, (s,), Some(vals[i]));
        assert(call_ensures(level, (s1,), None::<T>));
        assert(call_ensures(level, (s2,), Some(vals[i])));
    }
}

/// The bars of one line of `cava` output, `expected_bars` of them.
///
/// Each token of the line (see `cava_tokens`) is turned into a level by
/// `level`; the line is refused (`None`) when it has no token or when
/// `level` refuses one of them. The levels are then cut to `expected_bars`,
/// or padded with `silence` up to it.
pub fn parse_cava_line<T: Copy, F: Fn(&str) -> Option<T>>(
    line: &str,
    expected_bars: usize,
    level: F,
    silence: T,
) -> (r: Option<Vec<T>>)
    requires
        forall|s: &str| call_requires(level, (s,)),
    ensures
        cava_line_outcome(
            line@,
            expected_bars as nat,
            level,
            silence,
            match r {
                Some(bars) => Some(bars@),
                None => None,
            },
        ),
        r matches Some(bars) ==> {
            let toks = cava_tokens(line@);
            &&& bars@.len() == expected_bars
            &&& forall|i: int|
                0 <= i < expected_bars && i < toks.len() ==> level_gives(
                    level,
                    toks[i],
                    Some(#[trigger] bars@[i]),
                )
            &&& forall|i: int| toks.len() <= i < expected_bars ==> #[trigger] bars@[i] == silence
        },
{
    let trimmed = trim_text(line);
    let tokens = split_trimmed(trimmed.as_str(), ';');
    let ghost toks = cava_tokens(line@);
    assert(tokens.deep_view() == toks);
    assert(tokens.deep_view().len() == tokens@.len());
    let n = tokens.len();
    let mut vals: Vec<T> = Vec::new();
    let mut i: usize = 0;
    while i < n
        invariant
            n == tokens@.len(),
            n == toks.len(),
            toks == cava_tokens(line@),
            tokens.deep_view() == toks,
            i <= n,
            vals@.len() == i,
            forall|s: &str| call_requires(level, (s,)),
            forall|j: int| 0 <= j < i ==> level_gives(level, #[trigger] toks[j], Some(vals@[j])),
        decreases n - i,
    {
        let token: &str = tokens[i].as_str();
        assert(token@ == toks[i as int]);
        let out = level(token);
        match out {
            Some(v) => {
                assert(level_gives(level, toks[i as int], Some(v)));
                vals.push(v);
            },
            None => {
                assert(level_gives(level, toks[i as int], None));
                assert(exists|j: int| 0 <= j < toks.len() && level_gives(level, #[trigger] toks[j], None));
                return None;
            },
        }
        i = i + 1;
    }
    if n == 0 {
        return None;
    }
    let mut bars: Vec<T> = Vec::new();
    let mut k: usize = 0;
    while k < expected_bars
        invariant
            k <= expected_bars,
            vals@.len() == n,
            bars@ =~= fit_to_count(vals@, expected_bars as nat, silence).take(k as int),
        decreases expected_bars - k,
    {
        if k < n {
            bars.push(vals[k]);
        } else {
            bars.push(silence);
        }
        k = k + 1;
    }
    assert(bars@ =~= fit_to_count(vals@, expected_bars as nat, silence));
    proof {
        assert(cava_line_outcome(line@, expected_bars as nat, level, silence, Some(bars@)));
        lemma_cava_bars_pointwise(line@, expected_bars as nat, level, silence, bars@);
    }
    Some(bars)
}

/// `millis` as a `u64`, saturating at `u64::MAX`.
pub fn clamp_millis(millis: u128) -> (r: u64)
    ensures
        r == if millis > u64::MAX { u64::MAX as int } else { millis as int },
{
    if millis > (u64::MAX as u128) {
        u64::MAX
    } else {
        millis as u64
    }
}

/// Whole milliseconds since the Unix epoch as a `u64`, from the span since
/// the epoch in milliseconds (`None` for a clock before the epoch): 0 before
/// the epoch, else the span saturating at `u64::MAX`.
pub fn millis_or_zero(elapsed: Option<u128>) -> (r: u64)
    ensures
        elapsed is None ==> r == 0,
        elapsed matches Some(m) ==> r == if m > u64::MAX { u64::MAX as int } else { m as int },
{
    match elapsed {
        Some(m) => clamp_millis(m),
        None => 0,
    }
}

/// Milliseconds since the Unix epoch on the system clock, saturating at
/// `u64::MAX`, and 0 when the clock reads a time before the epoch (see
/// `millis_or_zero`).
pub fn now_millis() -> u64 {
    let now = current_time();
    let elapsed = match time_since_unix_epoch(&now) {
        Ok(span) => Some(whole_millis(&span)),
        Err(_) => None,
    };
    millis_or_zero(elapsed)
}

#[verifier::external_type_specification]
#[verifier::external_body]
pub struct ExSystemTime(SystemTime);

#[verifier::external_type_specification]
#[verifier::external_body]
pub struct ExSystemTimeError(SystemTimeError);

/// Calls `SystemTime::now`; what the clock reads is not stated.
#[verifier::external_body]
fn current_time() -> SystemTime {
    SystemTime::now()
}

/// Calls `SystemTime::duration_since` with `UNIX_EPOCH`; the span, or the
/// error for a time before the epoch, is not stated.
#[verifier::external_body]
fn time_since_unix_epoch(t: &SystemTime) -> Result<Duration, SystemTimeError> {
    t.duration_since(UNIX_EPOCH)
}

/// Calls `Duration::as_millis`; the duration is opaque here, so the result
/// is not stated.
#[verifier::external_body]
fn whole_millis(d: &Duration) -> u128 {
    d.as_millis()
}

} // verus!
